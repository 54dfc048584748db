//! The command alphabet and the instruction tree, together with their
//! canonical bracket serialization and the well-formedness predicate that
//! the parser establishes.

use vstd::prelude::*;

verus! {

/// The eight primitive commands of the source language, one per recognized
/// character. A value carries no payload and never changes once produced.
#[derive(Clone, Copy, PartialEq, Eq, Structural, Debug)]
pub enum Commands {
    IncPointer,
    DecPointer,
    IncByte,
    DecByte,
    WriteByte,
    ReadByte,
    LoopBegin,
    LoopEnd,
}

/// One node of the instruction tree: either a single non-bracket command
/// (a leaf), or a loop owning the ordered instruction sequence of its body.
#[derive(Debug)]
pub enum Instructions {
    Operation(Commands),
    Loop(Vec<Instructions>),
}

/// Canonical bracket serialization of the elements of `s` from index `i` on:
/// each leaf becomes its own command and each loop becomes its body's
/// serialization enclosed in `LoopBegin`/`LoopEnd`.
pub open spec fn seq_ser_from(s: Seq<Instructions>, i: int) -> Seq<Commands>
    decreases s, 0nat, s.len() - i,
{
    if i < 0 || i >= s.len() {
        Seq::empty()
    } else {
        instr_ser(s[i]) + seq_ser_from(s, i + 1)
    }
}

/// Canonical bracket serialization of a single instruction.
pub open spec fn instr_ser(ins: Instructions) -> Seq<Commands>
    decreases ins, 1nat, 0nat,
{
    match ins {
        Instructions::Operation(c) => seq![c],
        Instructions::Loop(body) => seq![Commands::LoopBegin] + seq_ser_from(body@, 0)
            + seq![Commands::LoopEnd],
    }
}

/// Canonical bracket serialization of a whole instruction sequence.
pub open spec fn seq_ser(s: Seq<Instructions>) -> Seq<Commands> {
    seq_ser_from(s, 0)
}

/// Well-formedness of the elements of `s` from index `i` on.
pub open spec fn instrs_wf_from(s: Seq<Instructions>, i: int) -> bool
    decreases s, 0nat, s.len() - i,
{
    i < 0 || i >= s.len() || (instr_wf(s[i]) && instrs_wf_from(s, i + 1))
}

/// A well-formed instruction never holds a bracket command as a leaf:
/// loop structure is expressed only by the `Loop` variant.
pub open spec fn instr_wf(ins: Instructions) -> bool
    decreases ins, 1nat, 0nat,
{
    match ins {
        Instructions::Operation(c) => c != Commands::LoopBegin && c != Commands::LoopEnd,
        Instructions::Loop(body) => instrs_wf_from(body@, 0),
    }
}

/// Well-formedness of a whole instruction sequence.
pub open spec fn instrs_wf(s: Seq<Instructions>) -> bool {
    instrs_wf_from(s, 0)
}

impl Instructions {
    /// Re-serialize an instruction tree to its canonical bracket form.
    pub fn to_commands(instrs: &Vec<Instructions>) -> (r: Vec<Commands>)
        ensures
            r@ == seq_ser(instrs@),
    {
        let mut out: Vec<Commands> = Vec::new();
        Self::ser_into(instrs, &mut out);
        proof {
            assert(Seq::<Commands>::empty() + seq_ser(instrs@) =~= seq_ser(instrs@));
        }
        out
    }

    /// Append the serialization of `instrs` to `out`.
    fn ser_into(instrs: &Vec<Instructions>, out: &mut Vec<Commands>)
        ensures
            final(out)@ == old(out)@ + seq_ser(instrs@),
        decreases *instrs,
    {
        let ghost base = out@;
        let n = instrs.len();
        let mut i: usize = 0;
        proof {
            assert(base + seq_ser(instrs@.take(0)) =~= base);
        }
        while i < n
            invariant
                n == instrs.len(),
                i <= n,
                base == old(out)@,
                out@ == base + seq_ser(instrs@.take(i as int)),
            decreases n - i,
        {
            let ghost pre = instrs@.take(i as int);
            proof {
                assert(pre.push(instrs@[i as int]) =~= instrs@.take(i as int + 1));
                lemma_ser_push(pre, instrs@[i as int]);
            }
            match &instrs[i] {
                Instructions::Operation(c) => {
                    out.push(*c);
                    proof {
                        assert(instr_ser(instrs@[i as int]) =~= seq![*c]);
                        assert((base + seq_ser(pre)).push(*c) =~= base + seq_ser(
                            instrs@.take(i as int + 1),
                        ));
                    }
                },
                Instructions::Loop(body) => {
                    out.push(Commands::LoopBegin);
                    proof {
                        assert(decreases_to!(*instrs => instrs@[i as int]));
                        assert(decreases_to!(instrs@[i as int] => *body));
                    }
                    Self::ser_into(body, out);
                    out.push(Commands::LoopEnd);
                    proof {
                        assert(instr_ser(instrs@[i as int]) == seq![Commands::LoopBegin]
                            + seq_ser_from(body@, 0) + seq![Commands::LoopEnd]);
                        assert(((base + seq_ser(pre)).push(Commands::LoopBegin) + seq_ser(body@))
                            .push(Commands::LoopEnd) =~= base + seq_ser(
                            instrs@.take(i as int + 1),
                        ));
                    }
                },
            }
            i += 1;
        }
        proof {
            assert(instrs@.take(n as int) =~= instrs@);
        }
    }

    /// Check that a tree is well-formed: no bracket command stands as a
    /// leaf, at any nesting depth. The parser only produces such trees;
    /// this check lets an unverified caller establish the evaluator's
    /// precondition for a tree of unknown origin.
    pub fn is_well_formed(instrs: &Vec<Instructions>) -> (b: bool)
        ensures
            b == instrs_wf(instrs@),
        decreases *instrs,
    {
        let n = instrs.len();
        let mut i: usize = 0;
        while i < n
            invariant
                n == instrs.len(),
                i <= n,
                instrs_wf_from(instrs@, 0) == instrs_wf_from(instrs@, i as int),
            decreases n - i,
        {
            match &instrs[i] {
                Instructions::Operation(c) => {
                    let bad = match c {
                        Commands::LoopBegin => true,
                        Commands::LoopEnd => true,
                        _ => false,
                    };
                    if bad {
                        proof {
                            assert(!instr_wf(instrs@[i as int]));
                            assert(!instrs_wf_from(instrs@, i as int));
                        }
                        return false;
                    }
                },
                Instructions::Loop(body) => {
                    proof {
                        assert(decreases_to!(*instrs => instrs@[i as int]));
                        assert(decreases_to!(instrs@[i as int] => *body));
                    }
                    let sub_ok = Self::is_well_formed(body);
                    if !sub_ok {
                        proof {
                            assert(!instr_wf(instrs@[i as int]));
                            assert(!instrs_wf_from(instrs@, i as int));
                        }
                        return false;
                    }
                },
            }
            proof {
                assert(instr_wf(instrs@[i as int]));
                assert(instrs_wf_from(instrs@, i as int) == instrs_wf_from(instrs@, i as int + 1));
            }
            i += 1;
        }
        true
    }
}

proof fn lemma_ser_from_push(s: Seq<Instructions>, x: Instructions, i: int)
    requires
        0 <= i <= s.len(),
    ensures
        seq_ser_from(s.push(x), i) == seq_ser_from(s, i) + instr_ser(x),
    decreases s.len() - i,
{
    let t = s.push(x);
    if i == s.len() {
        assert(t[i] == x);
        assert(seq_ser_from(t, i + 1) == Seq::<Commands>::empty());
        assert(seq_ser_from(s, i) == Seq::<Commands>::empty());
        assert(instr_ser(x) + Seq::<Commands>::empty() =~= Seq::<Commands>::empty()
            + instr_ser(x));
    } else {
        lemma_ser_from_push(s, x, i + 1);
        assert(t[i] == s[i]);
        assert(instr_ser(s[i]) + (seq_ser_from(s, i + 1) + instr_ser(x)) =~= (instr_ser(s[i])
            + seq_ser_from(s, i + 1)) + instr_ser(x));
    }
}

/// Appending an instruction extends the serialization on the right.
pub proof fn lemma_ser_push(s: Seq<Instructions>, x: Instructions)
    ensures
        seq_ser(s.push(x)) == seq_ser(s) + instr_ser(x),
{
    lemma_ser_from_push(s, x, 0);
}

proof fn lemma_wf_from_push(s: Seq<Instructions>, x: Instructions, i: int)
    requires
        0 <= i <= s.len(),
    ensures
        instrs_wf_from(s.push(x), i) == (instrs_wf_from(s, i) && instr_wf(x)),
    decreases s.len() - i,
{
    let t = s.push(x);
    if i == s.len() {
        assert(t[i] == x);
        assert(instrs_wf_from(t, i + 1));
        assert(instrs_wf_from(s, i));
    } else {
        lemma_wf_from_push(s, x, i + 1);
        assert(t[i] == s[i]);
    }
}

/// Appending an instruction keeps a sequence well-formed exactly when the
/// new instruction is.
pub proof fn lemma_wf_push(s: Seq<Instructions>, x: Instructions)
    ensures
        instrs_wf(s.push(x)) == (instrs_wf(s) && instr_wf(x)),
{
    lemma_wf_from_push(s, x, 0);
}

/// Every element of a well-formed sequence is itself well-formed.
pub proof fn lemma_wf_index(s: Seq<Instructions>, i: int, j: int)
    requires
        0 <= i <= j < s.len(),
        instrs_wf_from(s, i),
    ensures
        instr_wf(s[j]),
    decreases j - i,
{
    if i < j {
        lemma_wf_index(s, i + 1, j);
    }
}

} // verus!
