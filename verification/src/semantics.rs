//! The mathematical semantics of execution: a machine state made of the
//! tape, the cursor and the two byte streams, and a step-by-step
//! interpretation of the instruction tree, including the runaway-execution
//! guard. The evaluator is verified against these definitions.

use vstd::prelude::*;

use crate::ast::Commands;
use crate::ast::Instructions;

verus! {

/// Number of cells on the tape.
pub const TAPE_LEN: usize = 30000;

/// Iteration ceiling of one loop node: re-entering a body more often than
/// this is treated as a runaway execution.
pub const LOOP_CEILING: u64 = 1000000;

/// A fatal runtime failure.
#[derive(Clone, Copy, PartialEq, Eq, Structural, Debug)]
pub enum RuntimeError {
    /// The cursor was moved below zero or past the tape's upper bound.
    TapeBounds,
    /// An input command found the input stream exhausted.
    InputExhausted,
    /// A loop body was re-entered more often than `LOOP_CEILING` allows.
    RunawayLoop,
}

/// The whole state of one execution: the tape, the cursor, the input
/// bytes not yet consumed, and the output bytes emitted so far.
#[verifier::ext_equal]
pub struct MachineState {
    pub tape: Seq<u8>,
    pub cursor: int,
    pub input: Seq<u8>,
    pub output: Seq<u8>,
}

/// The state every execution starts from: an all-zero tape of `TAPE_LEN`
/// cells, the cursor on cell zero, the whole input ahead, no output.
pub open spec fn init_state(input: Seq<u8>) -> MachineState {
    MachineState {
        tape: Seq::new(TAPE_LEN as nat, |i: int| 0u8),
        cursor: 0,
        input,
        output: Seq::empty(),
    }
}

/// A state the evaluator can be in: the cursor rests on a tape cell.
pub open spec fn state_wf(st: MachineState) -> bool {
    0 <= st.cursor < st.tape.len()
}

/// Byte increment, wrapping modulo 256.
pub open spec fn inc_byte(b: u8) -> u8 {
    ((b + 1) % 256) as u8
}

/// Byte decrement, wrapping modulo 256.
pub open spec fn dec_byte(b: u8) -> u8 {
    ((b + 255) % 256) as u8
}

/// Effect of one non-loop command. Bracket commands never appear as
/// leaves of a well-formed tree; they are defined to leave the state
/// unchanged so that the semantics is total.
pub open spec fn step_op(c: Commands, st: MachineState) -> Result<MachineState, RuntimeError> {
    match c {
        Commands::IncPointer => if st.cursor + 1 < st.tape.len() {
            Ok(MachineState { cursor: st.cursor + 1, ..st })
        } else {
            Err(RuntimeError::TapeBounds)
        },
        Commands::DecPointer => if st.cursor >= 1 {
            Ok(MachineState { cursor: st.cursor - 1, ..st })
        } else {
            Err(RuntimeError::TapeBounds)
        },
        Commands::IncByte => Ok(
            MachineState { tape: st.tape.update(st.cursor, inc_byte(st.tape[st.cursor])), ..st },
        ),
        Commands::DecByte => Ok(
            MachineState { tape: st.tape.update(st.cursor, dec_byte(st.tape[st.cursor])), ..st },
        ),
        Commands::WriteByte => Ok(
            MachineState { output: st.output.push(st.tape[st.cursor]), ..st },
        ),
        Commands::ReadByte => if st.input.len() > 0 {
            Ok(
                MachineState {
                    tape: st.tape.update(st.cursor, st.input[0]),
                    input: st.input.drop_first(),
                    ..st
                },
            )
        } else {
            Err(RuntimeError::InputExhausted)
        },
        Commands::LoopBegin => Ok(st),
        Commands::LoopEnd => Ok(st),
    }
}

/// Run the instructions of `s` from index `i` on, in order, stopping at
/// the first failure.
pub open spec fn run_instrs_from(s: Seq<Instructions>, i: int, st: MachineState) -> Result<
    MachineState,
    RuntimeError,
>
    decreases s, 0nat, s.len() - i,
{
    if i < 0 || i >= s.len() {
        Ok(st)
    } else {
        match run_instr(s[i], st) {
            Ok(st2) => run_instrs_from(s, i + 1, st2),
            Err(e) => Err(e),
        }
    }
}

/// Run one instruction: a leaf takes one step, a loop re-enters its body
/// with a fresh iteration budget of `LOOP_CEILING`.
pub open spec fn run_instr(ins: Instructions, st: MachineState) -> Result<
    MachineState,
    RuntimeError,
>
    decreases ins, 1nat, 0nat,
{
    match ins {
        Instructions::Operation(c) => step_op(c, st),
        Instructions::Loop(body) => run_loop(body@, st, LOOP_CEILING as nat),
    }
}

/// Run a loop with `fuel` iterations left in its budget: re-test the cell
/// under the cursor, stop when it is zero, fail once the budget is spent.
pub open spec fn run_loop(body: Seq<Instructions>, st: MachineState, fuel: nat) -> Result<
    MachineState,
    RuntimeError,
>
    decreases body, fuel, 0nat,
{
    if st.tape[st.cursor] == 0 {
        Ok(st)
    } else if fuel == 0 {
        Err(RuntimeError::RunawayLoop)
    } else {
        match run_instrs_from(body, 0, st) {
            Ok(st2) => run_loop(body, st2, (fuel - 1) as nat),
            Err(e) => Err(e),
        }
    }
}

/// The output of one whole program run from the initial state, or its
/// first failure.
pub open spec fn run_program(instrs: Seq<Instructions>, input: Seq<u8>) -> Result<
    Seq<u8>,
    RuntimeError,
> {
    match run_instrs_from(instrs, 0, init_state(input)) {
        Ok(st) => Ok(st.output),
        Err(e) => Err(e),
    }
}

} // verus!
