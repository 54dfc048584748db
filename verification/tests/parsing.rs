use tapelang::ast::Commands;
use tapelang::ast::Instructions;
use tapelang::parser::ParseError;

#[test]
fn lexer_recognizes_all_eight_commands() {
    let cmds = Commands::from_string("><+-.,[]".to_string());
    assert_eq!(
        cmds,
        vec![
            Commands::IncPointer,
            Commands::DecPointer,
            Commands::IncByte,
            Commands::DecByte,
            Commands::WriteByte,
            Commands::ReadByte,
            Commands::LoopBegin,
            Commands::LoopEnd,
        ]
    );
}

#[test]
fn lexer_drops_comment_characters() {
    let cmds = Commands::from_string("a + b [comment] - !\n".to_string());
    assert_eq!(
        cmds,
        vec![
            Commands::IncByte,
            Commands::LoopBegin,
            Commands::LoopEnd,
            Commands::DecByte,
        ]
    );
}

#[test]
fn lexer_empty_source_gives_no_commands() {
    let cmds = Commands::from_string(String::new());
    assert!(cmds.is_empty());
}

#[test]
fn parse_empty_program() {
    let instrs = Instructions::from_commands(Vec::new()).unwrap();
    assert!(instrs.is_empty());
}

#[test]
fn round_trip_preserves_structure() {
    let src = "++[>+[-<]]>.";
    let cmds = Commands::from_string(src.to_string());
    let instrs = Instructions::from_commands(cmds.clone()).unwrap();
    let back = Instructions::to_commands(&instrs);
    assert_eq!(back, cmds);
}

#[test]
fn round_trip_deeply_nested() {
    let src = "[[[[[+]]]]]";
    let cmds = Commands::from_string(src.to_string());
    let instrs = Instructions::from_commands(cmds.clone()).unwrap();
    let back = Instructions::to_commands(&instrs);
    assert_eq!(back, cmds);
}

#[test]
fn round_trip_ignores_comments() {
    let cmds = Commands::from_string("loop: [ body - ] done".to_string());
    let instrs = Instructions::from_commands(cmds.clone()).unwrap();
    let back = Instructions::to_commands(&instrs);
    assert_eq!(back, cmds);
    assert_eq!(
        back,
        vec![Commands::LoopBegin, Commands::DecByte, Commands::LoopEnd]
    );
}

#[test]
fn parse_nests_loops_as_tree() {
    let cmds = Commands::from_string("[[]]".to_string());
    let instrs = Instructions::from_commands(cmds).unwrap();
    assert_eq!(instrs.len(), 1);
    match &instrs[0] {
        Instructions::Loop(body) => {
            assert_eq!(body.len(), 1);
            assert!(matches!(&body[0], Instructions::Loop(inner) if inner.is_empty()));
        }
        _ => panic!("expected a loop node"),
    }
}

#[test]
fn unmatched_loop_end_reported_at_its_position() {
    let cmds = Commands::from_string("+]".to_string());
    let r = Instructions::from_commands(cmds);
    assert_eq!(r.unwrap_err(), ParseError::UnmatchedLoopEnd { pos: 1 });
}

#[test]
fn unmatched_loop_end_without_any_opener() {
    let cmds = Commands::from_string("]".to_string());
    let r = Instructions::from_commands(cmds);
    assert_eq!(r.unwrap_err(), ParseError::UnmatchedLoopEnd { pos: 0 });
}

#[test]
fn unmatched_loop_begin_reported_at_opener() {
    let cmds = Commands::from_string("[[]".to_string());
    let r = Instructions::from_commands(cmds);
    assert_eq!(r.unwrap_err(), ParseError::UnmatchedLoopBegin { pos: 0 });
}

#[test]
fn unmatched_loop_begin_after_closed_region() {
    let cmds = Commands::from_string("[][".to_string());
    let r = Instructions::from_commands(cmds);
    assert_eq!(r.unwrap_err(), ParseError::UnmatchedLoopBegin { pos: 2 });
}

#[test]
fn parser_output_is_well_formed() {
    let cmds = Commands::from_string("+[>,[-.]<]".to_string());
    let instrs = Instructions::from_commands(cmds).unwrap();
    assert!(Instructions::is_well_formed(&instrs));
}

#[test]
fn hand_built_bracket_leaf_is_rejected() {
    let instrs = vec![Instructions::Operation(Commands::LoopEnd)];
    assert!(!Instructions::is_well_formed(&instrs));
}
