//! Laws of the interpreter that relate several of its definitions: proved
//! here once and for all inputs, over the same spec functions the
//! executable functions' contracts use.

use vstd::prelude::*;
use vstd::arithmetic::div_mod::lemma_add_mod_noop_right;

use crate::ast::Commands;
use crate::ast::Instructions;
use crate::ast::instr_ser;
use crate::ast::instr_wf;
use crate::ast::instrs_wf;
use crate::ast::instrs_wf_from;
use crate::ast::seq_ser;
use crate::ast::seq_ser_from;
use crate::semantics::LOOP_CEILING;
use crate::semantics::MachineState;
use crate::semantics::RuntimeError;
use crate::semantics::dec_byte;
use crate::semantics::inc_byte;
use crate::semantics::init_state;
use crate::semantics::run_instr;
use crate::semantics::run_instrs_from;
use crate::semantics::run_loop;
use crate::semantics::run_program;
use crate::semantics::state_wf;
use crate::semantics::step_op;

verus! {

/// Byte arithmetic is modulo 256 in both directions: incrementing 255
/// yields 0, decrementing 0 yields 255, and each operation undoes the
/// other.
pub proof fn theorem_byte_wraparound(b: u8)
    ensures
        inc_byte(b) == ((b + 1) % 256) as u8,
        dec_byte(b) == ((b + 255) % 256) as u8,
        inc_byte(255u8) == 0u8,
        dec_byte(0u8) == 255u8,
        dec_byte(inc_byte(b)) == b,
        inc_byte(dec_byte(b)) == b,
{
}

/// A loop whose condition cell holds zero never executes its body,
/// whatever the body contains: the state comes back unchanged.
pub proof fn theorem_zero_cell_skips_loop(body: Vec<Instructions>, st: MachineState)
    requires
        st.tape[st.cursor] == 0,
    ensures
        run_instr(Instructions::Loop(body), st) == Ok::<MachineState, RuntimeError>(st),
{
}

proof fn lemma_empty_body_loop(st: MachineState, fuel: nat)
    requires
        st.tape[st.cursor] != 0,
    ensures
        run_loop(Seq::<Instructions>::empty(), st, fuel) == Err::<MachineState, RuntimeError>(
            RuntimeError::RunawayLoop,
        ),
    decreases fuel,
{
    if fuel > 0 {
        assert(run_instrs_from(Seq::<Instructions>::empty(), 0, st) == Ok::<
            MachineState,
            RuntimeError,
        >(st));
        lemma_empty_body_loop(st, (fuel - 1) as nat);
    }
}

/// A loop that can never zero its condition cell does not run forever:
/// the runaway-execution guard stops it with `RunawayLoop`.
pub proof fn theorem_runaway_guard(body: Vec<Instructions>, st: MachineState)
    requires
        body@ == Seq::<Instructions>::empty(),
        st.tape[st.cursor] != 0,
    ensures
        run_instr(Instructions::Loop(body), st) == Err::<MachineState, RuntimeError>(
            RuntimeError::RunawayLoop,
        ),
{
    lemma_empty_body_loop(st, LOOP_CEILING as nat);
}

/// Running the instructions of `s.push(x)` runs those of `s` and then `x`.
pub proof fn lemma_run_from_push(s: Seq<Instructions>, x: Instructions, i: int, st: MachineState)
    requires
        0 <= i <= s.len(),
    ensures
        run_instrs_from(s.push(x), i, st) == (match run_instrs_from(s, i, st) {
            Ok(st2) => run_instr(x, st2),
            Err(e) => Err(e),
        }),
    decreases s.len() - i,
{
    let t = s.push(x);
    if i == s.len() {
        assert(t[i] == x);
        match run_instr(x, st) {
            Ok(st2) => {
                assert(run_instrs_from(t, i + 1, st2) == Ok::<MachineState, RuntimeError>(st2));
            },
            Err(_) => {},
        }
    } else {
        assert(t[i] == s[i]);
        match run_instr(s[i], st) {
            Ok(st2) => {
                lemma_run_from_push(s, x, i + 1, st2);
            },
            Err(_) => {},
        }
    }
}

/// `n` consecutive byte increments.
pub open spec fn repeat_inc(n: nat) -> Seq<Instructions> {
    Seq::new(n, |j: int| Instructions::Operation(Commands::IncByte))
}

/// `n` byte increments followed by one output command.
pub open spec fn inc_then_emit(n: nat) -> Seq<Instructions> {
    repeat_inc(n).push(Instructions::Operation(Commands::WriteByte))
}

proof fn lemma_run_incs(s: Seq<Instructions>, i: int, st: MachineState)
    requires
        0 <= i <= s.len(),
        forall|j: int| i <= j < s.len() ==> s[j] == Instructions::Operation(Commands::IncByte),
        state_wf(st),
    ensures
        run_instrs_from(s, i, st) == Ok::<MachineState, RuntimeError>(
            MachineState {
                tape: st.tape.update(
                    st.cursor,
                    ((st.tape[st.cursor] + s.len() - i) % 256) as u8,
                ),
                ..st
            },
        ),
    decreases s.len() - i,
{
    let c = st.cursor;
    let v = st.tape[c];
    if i == s.len() {
        assert(((v + s.len() - i) % 256) as u8 == v);
        assert(st.tape.update(c, v) =~= st.tape);
        assert(MachineState { tape: st.tape.update(c, ((v + s.len() - i) % 256) as u8), ..st }
            =~= st);
    } else {
        let st1 = MachineState { tape: st.tape.update(c, inc_byte(v)), ..st };
        assert(run_instr(s[i], st) == Ok::<MachineState, RuntimeError>(st1));
        lemma_run_incs(s, i + 1, st1);
        lemma_add_mod_noop_right(s.len() - i - 1, v + 1, 256);
        assert((st1.tape[c] + s.len() - (i + 1)) % 256 == (v + s.len() - i) % 256);
        assert(st1.tape.update(c, ((st1.tape[c] + s.len() - (i + 1)) % 256) as u8) =~= st.tape
            .update(c, ((v + s.len() - i) % 256) as u8));
        assert(MachineState {
            tape: st1.tape.update(c, ((st1.tape[c] + s.len() - (i + 1)) % 256) as u8),
            ..st1
        } =~= MachineState { tape: st.tape.update(c, ((v + s.len() - i) % 256) as u8), ..st });
    }
}

/// A program that increments the cell under the cursor `n` times and then
/// emits it writes exactly the byte `n % 256` and nothing else.
pub proof fn theorem_increment_then_emit(n: nat, input: Seq<u8>)
    ensures
        run_program(inc_then_emit(n), input) == Ok::<Seq<u8>, RuntimeError>(
            seq![(n % 256) as u8],
        ),
{
    let s = repeat_inc(n);
    let st0 = init_state(input);
    assert(st0.tape[0] == 0u8);
    lemma_run_incs(s, 0, st0);
    lemma_run_from_push(s, Instructions::Operation(Commands::WriteByte), 0, st0);
    let st1 = MachineState { tape: st0.tape.update(0, ((0 + n - 0) % 256) as u8), ..st0 };
    assert(st1.tape[st1.cursor] == (n % 256) as u8);
    assert(st0.output.push((n % 256) as u8) =~= seq![(n % 256) as u8]);
}

/// A program that reads one byte and immediately writes it back echoes
/// that exact byte.
pub proof fn theorem_echo(b: u8)
    ensures
        run_program(
            seq![
                Instructions::Operation(Commands::ReadByte),
                Instructions::Operation(Commands::WriteByte),
            ],
            seq![b],
        ) == Ok::<Seq<u8>, RuntimeError>(seq![b]),
{
    let prog = seq![
        Instructions::Operation(Commands::ReadByte),
        Instructions::Operation(Commands::WriteByte),
    ];
    let st0 = init_state(seq![b]);
    assert(prog[0] == Instructions::Operation(Commands::ReadByte));
    assert(prog[1] == Instructions::Operation(Commands::WriteByte));
    assert(st0.input[0] == b);
    let st1 = MachineState {
        tape: st0.tape.update(st0.cursor, st0.input[0]),
        input: st0.input.drop_first(),
        ..st0
    };
    assert(step_op(Commands::ReadByte, st0) == Ok::<MachineState, RuntimeError>(st1));
    assert(st1.tape[st1.cursor] == b);
    let st2 = MachineState { output: st1.output.push(st1.tape[st1.cursor]), ..st1 };
    assert(step_op(Commands::WriteByte, st1) == Ok::<MachineState, RuntimeError>(st2));
    assert(run_instr(prog[0], st0) == Ok::<MachineState, RuntimeError>(st1));
    assert(run_instr(prog[1], st1) == Ok::<MachineState, RuntimeError>(st2));
    assert(run_instrs_from(prog, 2, st2) == Ok::<MachineState, RuntimeError>(st2));
    assert(run_instrs_from(prog, 1, st1) == Ok::<MachineState, RuntimeError>(st2));
    assert(run_instrs_from(prog, 0, st0) == Ok::<MachineState, RuntimeError>(st2));
    assert(st2.output =~= seq![b]);
}

/// Every command of `cs` is a bracket.
pub open spec fn all_brackets(cs: Seq<Commands>) -> bool {
    forall|j: int|
        0 <= j < cs.len() ==> (cs[j] == Commands::LoopBegin || cs[j] == Commands::LoopEnd)
}

/// The elements of `s` from `i` on are loops all the way down, with no
/// leaf anywhere.
pub open spec fn loops_only_from(s: Seq<Instructions>, i: int) -> bool
    decreases s, 0nat, s.len() - i,
{
    i < 0 || i >= s.len() || (is_pure_loop(s[i]) && loops_only_from(s, i + 1))
}

/// An instruction made of loops alone.
pub open spec fn is_pure_loop(ins: Instructions) -> bool
    decreases ins, 1nat, 0nat,
{
    match ins {
        Instructions::Operation(_) => false,
        Instructions::Loop(body) => loops_only_from(body@, 0),
    }
}

proof fn lemma_all_brackets_split(a: Seq<Commands>, b: Seq<Commands>)
    requires
        all_brackets(a + b),
    ensures
        all_brackets(a),
        all_brackets(b),
{
    assert forall|j: int| 0 <= j < a.len() implies (a[j] == Commands::LoopBegin || a[j]
        == Commands::LoopEnd) by {
        assert((a + b)[j] == a[j]);
    }
    assert forall|j: int| 0 <= j < b.len() implies (b[j] == Commands::LoopBegin || b[j]
        == Commands::LoopEnd) by {
        assert((a + b)[a.len() + j] == b[j]);
    }
}

proof fn lemma_brackets_loops_only(s: Seq<Instructions>, i: int)
    requires
        0 <= i <= s.len(),
        instrs_wf_from(s, i),
        all_brackets(seq_ser_from(s, i)),
    ensures
        loops_only_from(s, i),
    decreases s, 0nat, s.len() - i,
{
    if i < s.len() {
        lemma_all_brackets_split(instr_ser(s[i]), seq_ser_from(s, i + 1));
        lemma_brackets_pure_loop(s[i]);
        lemma_brackets_loops_only(s, i + 1);
    }
}

proof fn lemma_brackets_pure_loop(ins: Instructions)
    requires
        instr_wf(ins),
        all_brackets(instr_ser(ins)),
    ensures
        is_pure_loop(ins),
    decreases ins, 1nat, 0nat,
{
    match ins {
        Instructions::Operation(c) => {
            assert(instr_ser(ins)[0] == c);
            assert(false);
        },
        Instructions::Loop(body) => {
            lemma_all_brackets_split(
                seq![Commands::LoopBegin] + seq_ser_from(body@, 0),
                seq![Commands::LoopEnd],
            );
            lemma_all_brackets_split(seq![Commands::LoopBegin], seq_ser_from(body@, 0));
            lemma_brackets_loops_only(body@, 0);
        },
    }
}

proof fn lemma_loops_zero_cell(s: Seq<Instructions>, i: int, st: MachineState)
    requires
        0 <= i <= s.len(),
        loops_only_from(s, i),
        st.tape[st.cursor] == 0,
    ensures
        run_instrs_from(s, i, st) == Ok::<MachineState, RuntimeError>(st),
    decreases s.len() - i,
{
    if i < s.len() {
        assert(is_pure_loop(s[i]) && loops_only_from(s, i + 1));
        match s[i] {
            Instructions::Loop(body) => {
                assert(run_loop(body@, st, LOOP_CEILING as nat) == Ok::<
                    MachineState,
                    RuntimeError,
                >(st));
                assert(run_instr(s[i], st) == Ok::<MachineState, RuntimeError>(st));
            },
            Instructions::Operation(_) => {
                assert(false);
            },
        }
        lemma_loops_zero_cell(s, i + 1, st);
    }
}

/// A program consisting only of balanced brackets does nothing: execution
/// succeeds at once with no output and the tape still all zero — the
/// final state is the initial state.
pub proof fn theorem_brackets_only_no_effect(instrs: Seq<Instructions>, input: Seq<u8>)
    requires
        instrs_wf(instrs),
        all_brackets(seq_ser(instrs)),
    ensures
        run_instrs_from(instrs, 0, init_state(input)) == Ok::<MachineState, RuntimeError>(
            init_state(input),
        ),
        run_program(instrs, input) == Ok::<Seq<u8>, RuntimeError>(Seq::<u8>::empty()),
{
    lemma_brackets_loops_only(instrs, 0);
    let st0 = init_state(input);
    assert(st0.tape[0] == 0u8);
    lemma_loops_zero_cell(instrs, 0, st0);
}

} // verus!
