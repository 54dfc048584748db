//! The lexer: turns raw source text into the ordered sequence of recognized
//! commands, silently dropping every character outside the eight-symbol
//! alphabet (the language's comment convention). It always succeeds.

use vstd::prelude::*;

use crate::ast::Commands;

verus! {

/// The command a single source character stands for, if any.
pub open spec fn command_of_char(c: char) -> Option<Commands> {
    match c {
        '>' => Some(Commands::IncPointer),
        '<' => Some(Commands::DecPointer),
        '+' => Some(Commands::IncByte),
        '-' => Some(Commands::DecByte),
        '.' => Some(Commands::WriteByte),
        ',' => Some(Commands::ReadByte),
        '[' => Some(Commands::LoopBegin),
        ']' => Some(Commands::LoopEnd),
        _ => None,
    }
}

/// The command sequence a source text denotes: one command per recognized
/// character, in source order, with every other character dropped.
pub open spec fn lex(s: Seq<char>) -> Seq<Commands>
    decreases s.len(),
{
    if s.len() == 0 {
        Seq::empty()
    } else {
        lex(s.drop_last()) + match command_of_char(s.last()) {
            Some(c) => seq![c],
            None => Seq::empty(),
        }
    }
}

/// Reading one more character extends the lexed sequence by that
/// character's command, if it has one.
pub proof fn lemma_lex_step(s: Seq<char>, i: int)
    requires
        0 <= i < s.len(),
    ensures
        lex(s.take(i + 1)) == lex(s.take(i)) + match command_of_char(s[i]) {
            Some(c) => seq![c],
            None => Seq::<Commands>::empty(),
        },
{
    let t = s.take(i + 1);
    assert(t.drop_last() =~= s.take(i));
    assert(t.last() == s[i]);
}

impl Commands {
    /// Lex the whole source text. Always succeeds; unrecognized characters
    /// are comments and leave no trace in the result.
    pub fn from_string(source: String) -> (r: Vec<Self>)
        ensures
            r@ == lex(source@),
    {
        let text = source.as_str();
        let n = text.unicode_len();
        let mut parsed_commands: Vec<Commands> = Vec::new();
        let mut i: usize = 0;
        while i < n
            invariant
                n == source@.len(),
                text@ == source@,
                i <= n,
                parsed_commands@ == lex(source@.take(i as int)),
            decreases n - i,
        {
            let ident = text.get_char(i);
            proof {
                lemma_lex_step(source@, i as int);
            }
            match ident {
                '>' => parsed_commands.push(Commands::IncPointer),
                '<' => parsed_commands.push(Commands::DecPointer),
                '+' => parsed_commands.push(Commands::IncByte),
                '-' => parsed_commands.push(Commands::DecByte),
                '.' => parsed_commands.push(Commands::WriteByte),
                ',' => parsed_commands.push(Commands::ReadByte),
                '[' => parsed_commands.push(Commands::LoopBegin),
                ']' => parsed_commands.push(Commands::LoopEnd),
                _ => {},
            }
            i += 1;
        }
        proof {
            assert(source@.take(n as int) =~= source@);
        }
        parsed_commands
    }
}

} // verus!
