use tapelang::ast::Commands;
use tapelang::ast::Instructions;
use tapelang::eval::execute;
use tapelang::semantics::RuntimeError;

fn run_source(src: &str, input: Vec<u8>) -> Result<Vec<u8>, RuntimeError> {
    let cmds = Commands::from_string(src.to_string());
    let instrs = Instructions::from_commands(cmds).unwrap();
    assert!(Instructions::is_well_formed(&instrs));
    execute(&instrs, &input)
}

#[test]
fn empty_program_produces_no_output() {
    assert_eq!(run_source("", Vec::new()).unwrap(), Vec::<u8>::new());
}

#[test]
fn balanced_brackets_only_terminate_silently() {
    assert_eq!(run_source("[[]][]", Vec::new()).unwrap(), Vec::<u8>::new());
}

#[test]
fn increment_wraps_255_to_zero() {
    let src = format!("{}.", "+".repeat(256));
    assert_eq!(run_source(&src, Vec::new()).unwrap(), vec![0u8]);
}

#[test]
fn decrement_wraps_zero_to_255() {
    assert_eq!(run_source("-.", Vec::new()).unwrap(), vec![255u8]);
}

#[test]
fn increment_to_target_emits_that_byte() {
    let src = format!("{}.", "+".repeat(65));
    assert_eq!(run_source(&src, Vec::new()).unwrap(), vec![65u8]);
}

#[test]
fn zero_condition_cell_skips_loop_body() {
    assert_eq!(run_source("[.+.]", Vec::new()).unwrap(), Vec::<u8>::new());
}

#[test]
fn hello_world() {
    let src = "++++++++[>++++[>++>+++>+++>+<<<<-]>+>+>->>+[<]<-]>>.>---.+++++++..+++.>>.<-.<.+++.------.--------.>>+.>++.";
    assert_eq!(run_source(src, Vec::new()).unwrap(), b"Hello World!\n".to_vec());
}

#[test]
fn echo_one_byte() {
    assert_eq!(run_source(",.", vec![200u8]).unwrap(), vec![200u8]);
}

#[test]
fn echo_two_bytes_in_order() {
    assert_eq!(run_source(",.,.", vec![7u8, 9u8]).unwrap(), vec![7u8, 9u8]);
}

#[test]
fn read_then_modify() {
    assert_eq!(run_source(",+.", vec![10u8]).unwrap(), vec![11u8]);
}

#[test]
fn pointer_moves_address_distinct_cells() {
    assert_eq!(run_source("+>++<.", Vec::new()).unwrap(), vec![1u8]);
}

#[test]
fn loop_computes_product() {
    assert_eq!(run_source("++[>+++<-]>.", Vec::new()).unwrap(), vec![6u8]);
}

#[test]
fn runaway_loop_trips_the_guard() {
    assert_eq!(run_source("+[]", Vec::new()).unwrap_err(), RuntimeError::RunawayLoop);
}

#[test]
fn reading_past_input_end_fails() {
    assert_eq!(run_source(",", Vec::new()).unwrap_err(), RuntimeError::InputExhausted);
}

#[test]
fn moving_left_of_cell_zero_fails() {
    assert_eq!(run_source("<", Vec::new()).unwrap_err(), RuntimeError::TapeBounds);
}

#[test]
fn moving_past_tape_end_fails() {
    let src = ">".repeat(30000);
    assert_eq!(run_source(&src, Vec::new()).unwrap_err(), RuntimeError::TapeBounds);
}

#[test]
fn moving_to_last_cell_is_allowed() {
    let src = format!("{}+.", ">".repeat(29999));
    assert_eq!(run_source(&src, Vec::new()).unwrap(), vec![1u8]);
}
