//! The parser (tree builder): one scan over the command sequence that
//! nests bracketed loop regions into `Loop` nodes and reports unmatched
//! brackets with the token index of the offending command.

use vstd::prelude::*;
use vstd::pervasive::unreached;

use crate::ast::Commands;
use crate::ast::Instructions;
use crate::ast::instr_ser;
use crate::ast::instr_wf;
use crate::ast::instrs_wf;
use crate::ast::lemma_ser_push;
use crate::ast::lemma_wf_push;
use crate::ast::seq_ser;

verus! {

/// A structural error: the source contains a bracket with no match.
/// `pos` is the index of the offending command in the token sequence.
#[derive(Clone, Copy, PartialEq, Eq, Structural, Debug)]
pub enum ParseError {
    UnmatchedLoopEnd { pos: usize },
    UnmatchedLoopBegin { pos: usize },
}

/// How one command changes the bracket nesting level.
pub open spec fn cmd_delta(c: Commands) -> int {
    match c {
        Commands::LoopBegin => 1,
        Commands::LoopEnd => -1,
        _ => 0,
    }
}

/// The bracket nesting level after reading all of `s`: the number of
/// `LoopBegin` commands minus the number of `LoopEnd` commands.
pub open spec fn nesting(s: Seq<Commands>) -> int
    decreases s.len(),
{
    if s.len() == 0 {
        0
    } else {
        nesting(s.drop_last()) + cmd_delta(s.last())
    }
}

/// A command sequence is balanced when no prefix closes more loop regions
/// than it has opened, and the whole sequence closes every region.
pub open spec fn balanced(s: Seq<Commands>) -> bool {
    &&& nesting(s) == 0
    &&& forall|j: int| 0 <= j <= s.len() ==> nesting(#[trigger] s.take(j)) >= 0
}

/// `s[i]` is a `LoopEnd` with no preceding matching `LoopBegin`: the scan
/// reaches it at nesting level zero, never having gone negative before.
pub open spec fn unmatched_close_at(s: Seq<Commands>, i: int) -> bool {
    &&& 0 <= i < s.len()
    &&& s[i] == Commands::LoopEnd
    &&& nesting(s.take(i)) == 0
    &&& forall|j: int| 0 <= j <= i ==> nesting(#[trigger] s.take(j)) >= 0
}

/// `s[i]` is a `LoopBegin` with no matching `LoopEnd`: it opens a
/// top-level region that never closes, in a sequence whose prefixes never
/// go negative (so no unmatched `LoopEnd` is reported first).
pub open spec fn unmatched_open_at(s: Seq<Commands>, i: int) -> bool {
    &&& 0 <= i < s.len()
    &&& s[i] == Commands::LoopBegin
    &&& nesting(s.take(i)) == 0
    &&& forall|j: int| 0 <= j <= s.len() ==> nesting(#[trigger] s.take(j)) >= 0
    &&& forall|k: int| i < k <= s.len() ==> nesting(#[trigger] s.take(k)) >= 1
}

/// One more command shifts the nesting level by its delta.
pub proof fn lemma_nesting_step(s: Seq<Commands>, i: int)
    requires
        0 <= i < s.len(),
    ensures
        nesting(s.take(i + 1)) == nesting(s.take(i)) + cmd_delta(s[i]),
{
    let t = s.take(i + 1);
    assert(t.drop_last() =~= s.take(i));
    assert(t.last() == s[i]);
}

/// Nesting is additive over concatenation.
pub proof fn lemma_nesting_concat(a: Seq<Commands>, b: Seq<Commands>)
    ensures
        nesting(a + b) == nesting(a) + nesting(b),
    decreases b.len(),
{
    if b.len() == 0 {
        assert(a + b =~= a);
    } else {
        lemma_nesting_concat(a, b.drop_last());
        assert((a + b).drop_last() =~= a + b.drop_last());
        assert((a + b).last() == b.last());
    }
}

/// Copy of the commands in `v` with indices in `[a, b)`.
fn subvec(v: &Vec<Commands>, a: usize, b: usize) -> (r: Vec<Commands>)
    requires
        a <= b <= v.len(),
    ensures
        r@ == v@.subrange(a as int, b as int),
{
    let mut r: Vec<Commands> = Vec::new();
    let mut k: usize = a;
    while k < b
        invariant
            a <= k <= b,
            b <= v.len(),
            r@ == v@.subrange(a as int, k as int),
        decreases b - k,
    {
        r.push(v[k]);
        proof {
            assert(v@.subrange(a as int, k as int).push(v@[k as int]) =~= v@.subrange(
                a as int,
                k as int + 1,
            ));
        }
        k += 1;
    }
    r
}

impl Instructions {
    /// Build the instruction tree for a command sequence.
    ///
    /// Succeeds exactly on balanced sequences; the tree then serializes
    /// back to the input, and is well-formed. An unmatched `LoopEnd` is
    /// reported at its own index; an unmatched `LoopBegin` at the index of
    /// the opener of the outermost region that never closes.
    pub fn from_commands(commands: Vec<Commands>) -> (r: Result<Vec<Self>, ParseError>)
        ensures
            r is Ok <==> balanced(commands@),
            match r {
                Ok(instrs) => seq_ser(instrs@) == commands@ && instrs_wf(instrs@),
                Err(ParseError::UnmatchedLoopEnd { pos }) => unmatched_close_at(
                    commands@,
                    pos as int,
                ),
                Err(ParseError::UnmatchedLoopBegin { pos }) => unmatched_open_at(
                    commands@,
                    pos as int,
                ),
            },
        decreases commands@.len(),
    {
        let ghost cs = commands@;
        let n = commands.len();
        let mut instructions: Vec<Instructions> = Vec::new();
        let mut loop_nums: usize = 0;
        let mut loop_start: usize = 0;
        let mut i: usize = 0;

        while i < n
            invariant
                n == commands.len(),
                cs == commands@,
                i <= n,
                loop_nums <= i,
                loop_nums == nesting(cs.take(i as int)),
                forall|j: int| 0 <= j <= i ==> nesting(#[trigger] cs.take(j)) >= 0,
                loop_nums > 0 ==> loop_start < i && cs[loop_start as int] == Commands::LoopBegin
                    && nesting(cs.take(loop_start as int)) == 0,
                loop_nums > 0 ==> forall|k: int|
                    loop_start < k <= i ==> nesting(#[trigger] cs.take(k)) >= 1,
                loop_nums == 0 ==> seq_ser(instructions@) == cs.take(i as int),
                loop_nums > 0 ==> seq_ser(instructions@) == cs.take(loop_start as int),
                instrs_wf(instructions@),
            decreases n - i,
        {
            let cmd = commands[i];
            proof {
                lemma_nesting_step(cs, i as int);
            }
            if loop_nums == 0 {
                match cmd {
                    Commands::LoopBegin => {
                        loop_start = i;
                        loop_nums = 1;
                    },
                    Commands::LoopEnd => {
                        proof {
                            assert(unmatched_close_at(cs, i as int));
                            assert(!balanced(cs)) by {
                                if balanced(cs) {
                                    assert(nesting(cs.take(i as int + 1)) >= 0);
                                }
                            }
                        }
                        return Err(ParseError::UnmatchedLoopEnd { pos: i });
                    },
                    _ => {
                        let node = Instructions::Operation(cmd);
                        proof {
                            lemma_ser_push(instructions@, node);
                            lemma_wf_push(instructions@, node);
                            assert(cs.take(i as int) + instr_ser(node) =~= cs.take(i as int + 1));
                        }
                        instructions.push(node);
                    },
                }
            } else {
                match cmd {
                    Commands::LoopBegin => {
                        loop_nums = loop_nums + 1;
                    },
                    Commands::LoopEnd => {
                        loop_nums = loop_nums - 1;
                        if loop_nums == 0 {
                            let ghost l = loop_start as int;
                            let ghost gi = i as int;
                            let sub = subvec(&commands, loop_start + 1, i);
                            proof {
                                lemma_nesting_step(cs, l);
                                assert(nesting(cs.take(l + 1)) == 1);
                                lemma_nesting_concat(cs.take(l + 1), sub@);
                                assert(cs.take(l + 1) + sub@ =~= cs.take(gi));
                                assert(nesting(sub@) == 0);
                                assert forall|m: int| 0 <= m <= sub@.len() implies nesting(
                                    #[trigger] sub@.take(m),
                                ) >= 0 by {
                                    lemma_nesting_concat(cs.take(l + 1), sub@.take(m));
                                    assert(cs.take(l + 1) + sub@.take(m) =~= cs.take(l + 1 + m));
                                    assert(nesting(cs.take(l + 1 + m)) >= 1);
                                }
                                assert(balanced(sub@));
                            }
                            let parsed = Instructions::from_commands(sub);
                            match parsed {
                                Ok(sub_instrs) => {
                                    let node = Instructions::Loop(sub_instrs);
                                    proof {
                                        lemma_ser_push(instructions@, node);
                                        lemma_wf_push(instructions@, node);
                                        assert(instr_ser(node) =~= cs.subrange(l, gi + 1));
                                        assert(cs.take(l) + cs.subrange(l, gi + 1) =~= cs.take(
                                            gi + 1,
                                        ));
                                    }
                                    instructions.push(node);
                                },
                                Err(_) => {
                                    return unreached();
                                },
                            }
                        }
                    },
                    _ => {},
                }
            }
            i += 1;
        }

        if loop_nums > 0 {
            proof {
                assert(cs.take(n as int) =~= cs);
                assert(unmatched_open_at(cs, loop_start as int));
                assert(!balanced(cs));
            }
            return Err(ParseError::UnmatchedLoopBegin { pos: loop_start });
        }
        proof {
            assert(cs.take(n as int) =~= cs);
        }
        Ok(instructions)
    }
}

} // verus!
