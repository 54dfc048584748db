//! The evaluator: walks the instruction tree against a byte tape, a
//! cursor, an input stream and an output buffer, and is proved to agree
//! with the mathematical semantics in `semantics`, error for error.

use vstd::prelude::*;

use crate::ast::Commands;
use crate::ast::Instructions;
use crate::ast::instr_wf;
use crate::ast::instrs_wf;
use crate::ast::lemma_wf_index;
use crate::semantics::LOOP_CEILING;
use crate::semantics::MachineState;
use crate::semantics::RuntimeError;
use crate::semantics::TAPE_LEN;
use crate::semantics::dec_byte;
use crate::semantics::inc_byte;
use crate::semantics::init_state;
use crate::semantics::run_instr;
use crate::semantics::run_instrs_from;
use crate::semantics::run_loop;
use crate::semantics::run_program;
use crate::semantics::step_op;

verus! {

/// The machine state the evaluator's variables stand for: `pos` input
/// bytes are already consumed.
pub open spec fn st_of(tape: Seq<u8>, cursor: nat, input: Seq<u8>, pos: nat, out: Seq<u8>) -> MachineState {
    MachineState { tape: tape, cursor: cursor as int, input: input.skip(pos as int), output: out }
}

/// The view of an execution result: the output bytes on success, the
/// failure otherwise.
pub open spec fn output_view(r: Result<Vec<u8>, RuntimeError>) -> Result<Seq<u8>, RuntimeError> {
    match r {
        Ok(v) => Ok(v@),
        Err(e) => Err(e),
    }
}

/// Perform one non-loop command on the evaluator's state.
fn exec_op(
    cmd: Commands,
    pointer: &mut usize,
    memory: &mut Vec<u8>,
    input: &Vec<u8>,
    in_pos: &mut usize,
    output: &mut Vec<u8>,
) -> (r: Result<(), RuntimeError>)
    requires
        *old(pointer) < old(memory).len(),
        *old(in_pos) <= input.len(),
    ensures
        final(memory).len() == old(memory).len(),
        *final(pointer) < final(memory).len(),
        *old(in_pos) <= *final(in_pos) <= input.len(),
        match r {
            Ok(()) => step_op(
                cmd,
                st_of(old(memory)@, *old(pointer) as nat, input@, *old(in_pos) as nat, old(output)@),
            ) == Ok::<MachineState, RuntimeError>(
                st_of(
                    final(memory)@,
                    *final(pointer) as nat,
                    input@,
                    *final(in_pos) as nat,
                    final(output)@,
                ),
            ),
            Err(e) => step_op(
                cmd,
                st_of(old(memory)@, *old(pointer) as nat, input@, *old(in_pos) as nat, old(output)@),
            ) == Err::<MachineState, RuntimeError>(e),
        },
{
    let ghost st_old = st_of(memory@, *pointer as nat, input@, *in_pos as nat, output@);
    match cmd {
        Commands::IncPointer => {
            if *pointer + 1 < memory.len() {
                *pointer = *pointer + 1;
                Ok(())
            } else {
                Err(RuntimeError::TapeBounds)
            }
        },
        Commands::DecPointer => {
            if *pointer >= 1 {
                *pointer = *pointer - 1;
                Ok(())
            } else {
                Err(RuntimeError::TapeBounds)
            }
        },
        Commands::IncByte => {
            let cell = memory[*pointer];
            let newv: u8 = if cell == 255 {
                0
            } else {
                cell + 1
            };
            proof {
                assert(newv == inc_byte(cell));
            }
            memory.set(*pointer, newv);
            Ok(())
        },
        Commands::DecByte => {
            let cell = memory[*pointer];
            let newv: u8 = if cell == 0 {
                255
            } else {
                cell - 1
            };
            proof {
                assert(newv == dec_byte(cell));
            }
            memory.set(*pointer, newv);
            Ok(())
        },
        Commands::WriteByte => {
            let cell = memory[*pointer];
            output.push(cell);
            Ok(())
        },
        Commands::ReadByte => {
            if *in_pos < input.len() {
                let b = input[*in_pos];
                memory.set(*pointer, b);
                *in_pos = *in_pos + 1;
                proof {
                    assert(st_old.input[0] == input@[*old(in_pos) as int]);
                    assert(st_old.input.drop_first() =~= input@.skip(*in_pos as int));
                }
                Ok(())
            } else {
                proof {
                    assert(st_old.input.len() == 0);
                }
                Err(RuntimeError::InputExhausted)
            }
        },
        Commands::LoopBegin => Ok(()),
        Commands::LoopEnd => Ok(()),
    }
}

/// Run one instruction sequence (one nesting level of the tree) against
/// the shared state, mirroring `run_instrs_from`.
fn execute_inner(
    instr: &Vec<Instructions>,
    pointer: &mut usize,
    memory: &mut Vec<u8>,
    input: &Vec<u8>,
    in_pos: &mut usize,
    output: &mut Vec<u8>,
) -> (r: Result<(), RuntimeError>)
    requires
        instrs_wf(instr@),
        *old(pointer) < old(memory).len(),
        *old(in_pos) <= input.len(),
    ensures
        final(memory).len() == old(memory).len(),
        *final(pointer) < final(memory).len(),
        *old(in_pos) <= *final(in_pos) <= input.len(),
        match r {
            Ok(()) => run_instrs_from(
                instr@,
                0,
                st_of(old(memory)@, *old(pointer) as nat, input@, *old(in_pos) as nat, old(output)@),
            ) == Ok::<MachineState, RuntimeError>(
                st_of(
                    final(memory)@,
                    *final(pointer) as nat,
                    input@,
                    *final(in_pos) as nat,
                    final(output)@,
                ),
            ),
            Err(e) => run_instrs_from(
                instr@,
                0,
                st_of(old(memory)@, *old(pointer) as nat, input@, *old(in_pos) as nat, old(output)@),
            ) == Err::<MachineState, RuntimeError>(e),
        },
    decreases *instr,
{
    let ghost st0 = st_of(memory@, *pointer as nat, input@, *in_pos as nat, output@);
    let n = instr.len();
    let mut i: usize = 0;
    while i < n
        invariant
            n == instr.len(),
            i <= n,
            instrs_wf(instr@),
            st0 == st_of(
                old(memory)@,
                *old(pointer) as nat,
                input@,
                *old(in_pos) as nat,
                old(output)@,
            ),
            memory.len() == old(memory).len(),
            *pointer < memory.len(),
            *old(in_pos) <= *in_pos <= input.len(),
            run_instrs_from(instr@, 0, st0) == run_instrs_from(
                instr@,
                i as int,
                st_of(memory@, *pointer as nat, input@, *in_pos as nat, output@),
            ),
        decreases n - i,
    {
        let ghost st_cur = st_of(memory@, *pointer as nat, input@, *in_pos as nat, output@);
        proof {
            lemma_wf_index(instr@, 0, i as int);
        }
        match &instr[i] {
            Instructions::Operation(cmd) => {
                let r2 = exec_op(*cmd, pointer, memory, input, in_pos, output);
                proof {
                    assert(run_instr(instr@[i as int], st_cur) == step_op(*cmd, st_cur));
                }
                if let Err(e) = r2 {
                    return Err(e);
                }
            },
            Instructions::Loop(body) => {
                let ghost st_enter = st_cur;
                let mut guard: u64 = 0;
                proof {
                    assert(run_instr(instr@[i as int], st_enter) == run_loop(
                        body@,
                        st_enter,
                        LOOP_CEILING as nat,
                    ));
                }
                while memory[*pointer] != 0
                    invariant
                        guard <= LOOP_CEILING,
                        instrs_wf(body@),
                        instr@[i as int] == Instructions::Loop(*body),
                        st0 == st_of(
                            old(memory)@,
                            *old(pointer) as nat,
                            input@,
                            *old(in_pos) as nat,
                            old(output)@,
                        ),
                        memory.len() == old(memory).len(),
                        *pointer < memory.len(),
                        *old(in_pos) <= *in_pos <= input.len(),
                        run_loop(body@, st_enter, LOOP_CEILING as nat) == run_loop(
                            body@,
                            st_of(memory@, *pointer as nat, input@, *in_pos as nat, output@),
                            (LOOP_CEILING - guard) as nat,
                        ),
                        run_instrs_from(instr@, 0, st0) == run_instrs_from(
                            instr@,
                            i as int,
                            st_enter,
                        ),
                        run_instr(instr@[i as int], st_enter) == run_loop(
                            body@,
                            st_enter,
                            LOOP_CEILING as nat,
                        ),
                        i < n,
                        n == instr.len(),
                    decreases LOOP_CEILING - guard,
                {
                    let ghost st_now = st_of(
                        memory@,
                        *pointer as nat,
                        input@,
                        *in_pos as nat,
                        output@,
                    );
                    proof {
                        assert(st_now.tape[st_now.cursor] != 0);
                    }
                    if guard == LOOP_CEILING {
                        proof {
                            assert(run_loop(body@, st_now, 0nat) == Err::<
                                MachineState,
                                RuntimeError,
                            >(RuntimeError::RunawayLoop));
                        }
                        return Err(RuntimeError::RunawayLoop);
                    }
                    guard = guard + 1;
                    proof {
                        assert(instr@[i as int] == Instructions::Loop(*body));
                        assert(decreases_to!(*instr => instr@[i as int]));
                        assert(decreases_to!(instr@[i as int] => *body));
                    }
                    let r2 = execute_inner(body, pointer, memory, input, in_pos, output);
                    match r2 {
                        Ok(()) => {},
                        Err(e) => {
                            return Err(e);
                        },
                    }
                }
                proof {
                    let st_done = st_of(memory@, *pointer as nat, input@, *in_pos as nat, output@);
                    assert(run_loop(
                        body@,
                        st_done,
                        (LOOP_CEILING - guard) as nat,
                    ) == Ok::<MachineState, RuntimeError>(st_done));
                }
            },
        }
        i += 1;
    }
    proof {
        assert(run_instrs_from(
            instr@,
            n as int,
            st_of(memory@, *pointer as nat, input@, *in_pos as nat, output@),
        ) == Ok::<MachineState, RuntimeError>(
            st_of(memory@, *pointer as nat, input@, *in_pos as nat, output@),
        ));
    }
    Ok(())
}

/// Execute the instruction tree to completion against a fresh all-zero
/// tape with the cursor on cell zero, consuming bytes of `input` and
/// returning the program's output, or its first runtime failure.
pub fn execute(instr: &Vec<Instructions>, input: &Vec<u8>) -> (r: Result<Vec<u8>, RuntimeError>)
    requires
        instrs_wf(instr@),
    ensures
        output_view(r) == run_program(instr@, input@),
{
    let mut memory: Vec<u8> = Vec::new();
    let mut k: usize = 0;
    while k < TAPE_LEN
        invariant
            k <= TAPE_LEN,
            memory.len() == k,
            forall|j: int| 0 <= j < k ==> memory@[j] == 0u8,
        decreases TAPE_LEN - k,
    {
        memory.push(0);
        k += 1;
    }
    let mut pointer: usize = 0;
    let mut in_pos: usize = 0;
    let mut output: Vec<u8> = Vec::new();
    proof {
        assert(st_of(memory@, 0nat, input@, 0nat, output@) =~= init_state(input@));
    }
    let r = execute_inner(instr, &mut pointer, &mut memory, input, &mut in_pos, &mut output);
    match r {
        Ok(()) => Ok(output),
        Err(e) => Err(e),
    }
}

} // verus!
