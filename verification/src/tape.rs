//! Instruction-stream optimization for the companion tape machine: a
//! minimal eight-instruction language over a cell tape.
//!
//! Two passes run after lexing. [`optimize`] merges runs of identical
//! instructions into one instruction carrying a repeat count.
//! [`optimize_loops`] resolves every bracket to the position of its
//! partner, so the interpreter can jump in one step instead of
//! scanning.

use vstd::prelude::*;

verus! {

/// One tape-machine instruction. The payload of the movement,
/// arithmetic and I/O instructions is a repeat count; after
/// [`optimize_loops`], the payload of `LoopStart` and `LoopEnd` is the
/// position of the matching partner bracket.
#[derive(Copy, Clone, Debug, PartialEq, Eq, Structural)]
pub enum TapeOp {
    Left(usize),
    Right(usize),
    Increment(u64),
    Decrement(u64),
    Output(usize),
    Input(usize),
    LoopStart(usize),
    LoopEnd(usize),
}

/// The repeat count an instruction carries.
pub open spec fn count_of(op: TapeOp) -> int {
    match op {
        TapeOp::Left(x) => x as int,
        TapeOp::Right(x) => x as int,
        TapeOp::Increment(x) => x as int,
        TapeOp::Decrement(x) => x as int,
        TapeOp::Output(x) => x as int,
        TapeOp::Input(x) => x as int,
        TapeOp::LoopStart(x) => x as int,
        TapeOp::LoopEnd(x) => x as int,
    }
}

/// The total repeat count of the instructions from `ip` on.
pub open spec fn sum_counts_from(s: Seq<TapeOp>, ip: int) -> int
    decreases s.len() - ip,
{
    if ip < 0 || ip >= s.len() {
        0
    } else {
        count_of(s[ip]) + sum_counts_from(s, ip + 1)
    }
}

/// The sum of repeat counts is never negative.
proof fn lemma_sum_counts_nonneg(s: Seq<TapeOp>, ip: int)
    ensures
        sum_counts_from(s, ip) >= 0,
    decreases s.len() - ip,
{
    if 0 <= ip < s.len() {
        lemma_sum_counts_nonneg(s, ip + 1);
    }
}

/// One step of the run-merging pass: what the next instruction does to
/// the held instruction, and what is emitted. Identical neighbouring
/// instructions merge by adding their counts; brackets never merge --
/// a bracket flushes the held instruction and is held with count zero,
/// and a bracket held against another bracket is emitted as count
/// zero.
pub open spec fn spec_merge_step(cur: TapeOp, next: TapeOp) -> (Seq<TapeOp>, TapeOp) {
    match next {
        TapeOp::Left(x) => match cur {
            TapeOp::Left(y) => (Seq::empty(), TapeOp::Left((x + y) as usize)),
            _ => (seq![cur], TapeOp::Left(x)),
        },
        TapeOp::Right(x) => match cur {
            TapeOp::Right(y) => (Seq::empty(), TapeOp::Right((x + y) as usize)),
            _ => (seq![cur], TapeOp::Right(x)),
        },
        TapeOp::Increment(x) => match cur {
            TapeOp::Increment(y) => (Seq::empty(), TapeOp::Increment((x + y) as u64)),
            _ => (seq![cur], TapeOp::Increment(x)),
        },
        TapeOp::Decrement(x) => match cur {
            TapeOp::Decrement(y) => (Seq::empty(), TapeOp::Decrement((x + y) as u64)),
            _ => (seq![cur], TapeOp::Decrement(x)),
        },
        TapeOp::Output(x) => match cur {
            TapeOp::Output(y) => (Seq::empty(), TapeOp::Output((x + y) as usize)),
            _ => (seq![cur], TapeOp::Output(x)),
        },
        TapeOp::Input(x) => match cur {
            TapeOp::Input(y) => (Seq::empty(), TapeOp::Input((x + y) as usize)),
            _ => (seq![cur], TapeOp::Input(x)),
        },
        TapeOp::LoopStart(_) => match cur {
            TapeOp::LoopStart(_) => (seq![TapeOp::LoopStart(0)], cur),
            _ => (seq![cur], TapeOp::LoopStart(0)),
        },
        TapeOp::LoopEnd(_) => match cur {
            TapeOp::LoopEnd(_) => (seq![TapeOp::LoopEnd(0)], cur),
            _ => (seq![cur], TapeOp::LoopEnd(0)),
        },
    }
}

/// The run-merging pass from position `ip` on, holding `cur`: when the
/// input is exhausted the held instruction is emitted last.
pub open spec fn spec_optimize_from(s: Seq<TapeOp>, cur: TapeOp, ip: int) -> Seq<TapeOp>
    decreases s.len() - ip,
{
    if ip < 0 || ip >= s.len() {
        seq![cur]
    } else {
        let step = spec_merge_step(cur, s[ip]);
        step.0 + spec_optimize_from(s, step.1, ip + 1)
    }
}

/// What the run-merging pass yields for a whole program: the first
/// instruction is held, the rest are folded in.
pub open spec fn spec_optimize(s: Seq<TapeOp>) -> Seq<TapeOp> {
    spec_optimize_from(s, s[0], 1)
}

/// Merges runs of identical instructions into one instruction carrying
/// the summed repeat count, exactly as [`spec_optimize`] describes.
/// The total count bound keeps the sums within the count types.
pub fn optimize(program: Vec<TapeOp>) -> (r: Vec<TapeOp>)
    requires
        program@.len() > 0,
        sum_counts_from(program@, 0) <= usize::MAX,
        sum_counts_from(program@, 0) <= u64::MAX,
    ensures
        r@ == spec_optimize(program@),
{
    let mut optimized: Vec<TapeOp> = Vec::new();
    let mut ip: usize = 1;
    let mut current_op: TapeOp = program[0];
    proof {
        lemma_sum_counts_nonneg(program@, 1);
    }
    while ip < program.len()
        invariant
            1 <= ip <= program@.len(),
            sum_counts_from(program@, 0) <= usize::MAX,
            sum_counts_from(program@, 0) <= u64::MAX,
            count_of(current_op) + sum_counts_from(program@, ip as int) <= sum_counts_from(
                program@,
                0,
            ),
            count_of(current_op) >= 0,
            spec_optimize(program@) == optimized@ + spec_optimize_from(
                program@,
                current_op,
                ip as int,
            ),
        decreases program@.len() - ip,
    {
        proof {
            lemma_sum_counts_nonneg(program@, ip + 1);
        }
        let ghost old_out = optimized@;
        let ghost step = spec_merge_step(current_op, program@[ip as int]);
        let next = program[ip];
        match next {
            TapeOp::Left(x) => match current_op {
                TapeOp::Left(y) => {
                    current_op = TapeOp::Left(x + y);
                },
                _ => {
                    optimized.push(current_op);
                    current_op = TapeOp::Left(x);
                },
            },
            TapeOp::Right(x) => match current_op {
                TapeOp::Right(y) => {
                    current_op = TapeOp::Right(x + y);
                },
                _ => {
                    optimized.push(current_op);
                    current_op = TapeOp::Right(x);
                },
            },
            TapeOp::Increment(x) => match current_op {
                TapeOp::Increment(y) => {
                    current_op = TapeOp::Increment(x + y);
                },
                _ => {
                    optimized.push(current_op);
                    current_op = TapeOp::Increment(x);
                },
            },
            TapeOp::Decrement(x) => match current_op {
                TapeOp::Decrement(y) => {
                    current_op = TapeOp::Decrement(x + y);
                },
                _ => {
                    optimized.push(current_op);
                    current_op = TapeOp::Decrement(x);
                },
            },
            TapeOp::Output(x) => match current_op {
                TapeOp::Output(y) => {
                    current_op = TapeOp::Output(x + y);
                },
                _ => {
                    optimized.push(current_op);
                    current_op = TapeOp::Output(x);
                },
            },
            TapeOp::Input(x) => match current_op {
                TapeOp::Input(y) => {
                    current_op = TapeOp::Input(x + y);
                },
                _ => {
                    optimized.push(current_op);
                    current_op = TapeOp::Input(x);
                },
            },
            TapeOp::LoopStart(_) => match current_op {
                TapeOp::LoopStart(_) => {
                    optimized.push(TapeOp::LoopStart(0));
                },
                _ => {
                    optimized.push(current_op);
                    current_op = TapeOp::LoopStart(0);
                },
            },
            TapeOp::LoopEnd(_) => match current_op {
                TapeOp::LoopEnd(_) => {
                    optimized.push(TapeOp::LoopEnd(0));
                },
                _ => {
                    optimized.push(current_op);
                    current_op = TapeOp::LoopEnd(0);
                },
            },
        }
        proof {
            assert(optimized@ =~= old_out + step.0);
            assert(old_out + (step.0 + spec_optimize_from(program@, step.1, ip + 1)) =~= (old_out
                + step.0) + spec_optimize_from(program@, step.1, ip + 1));
        }
        ip += 1;
    }
    optimized.push(current_op);
    proof {
        assert(optimized@ =~= spec_optimize(program@));
    }
    optimized
}

/// Scans forward from `j` at nesting depth `level` for the `LoopEnd`
/// that closes the bracket under consideration.
pub open spec fn find_close_from(s: Seq<TapeOp>, j: int, level: int) -> Option<int>
    decreases s.len() - j,
{
    if j < 0 || j >= s.len() {
        None
    } else {
        match s[j] {
            TapeOp::LoopEnd(_) => if level == 0 {
                Some(j)
            } else {
                find_close_from(s, j + 1, level - 1)
            },
            TapeOp::LoopStart(_) => find_close_from(s, j + 1, level + 1),
            _ => find_close_from(s, j + 1, level),
        }
    }
}

/// Scans backward from `j` at nesting depth `level` for the
/// `LoopStart` that opens the bracket under consideration.
pub open spec fn find_open_from(s: Seq<TapeOp>, j: int, level: int) -> Option<int>
    decreases j + 1,
{
    if j < 0 || j >= s.len() {
        None
    } else {
        match s[j] {
            TapeOp::LoopStart(_) => if level == 0 {
                Some(j)
            } else {
                find_open_from(s, j - 1, level - 1)
            },
            TapeOp::LoopEnd(_) => find_open_from(s, j - 1, level + 1),
            _ => find_open_from(s, j - 1, level),
        }
    }
}

/// Every bracket of the program has a partner in scanning distance.
pub open spec fn brackets_resolved(s: Seq<TapeOp>) -> bool {
    forall|i: int|
        0 <= i < s.len() ==> match #[trigger] s[i] {
            TapeOp::LoopStart(_) => find_close_from(s, i + 1, 0) is Some,
            TapeOp::LoopEnd(_) => find_open_from(s, i - 1, 0) is Some,
            _ => true,
        }
}

/// What the bracket-resolution pass writes at position `i`: brackets
/// carry their partner's position, everything else is untouched.
pub open spec fn spec_loop_fix(s: Seq<TapeOp>, i: int) -> TapeOp {
    match s[i] {
        TapeOp::LoopStart(_) => TapeOp::LoopStart(
            (match find_close_from(s, i + 1, 0) {
                Some(j) => j,
                None => 0,
            }) as usize,
        ),
        TapeOp::LoopEnd(_) => TapeOp::LoopEnd(
            (match find_open_from(s, i - 1, 0) {
                Some(j) => j,
                None => 0,
            }) as usize,
        ),
        x => x,
    }
}

/// Replaces the payload of every bracket with the position of its
/// partner, exactly as [`spec_loop_fix`] describes position by
/// position; everything else passes through unchanged.
pub fn optimize_loops(program: Vec<TapeOp>) -> (r: Vec<TapeOp>)
    requires
        brackets_resolved(program@),
    ensures
        r@.len() == program@.len(),
        forall|i: int| 0 <= i < program@.len() ==> r@[i] == spec_loop_fix(program@, i),
{
    let mut optimized: Vec<TapeOp> = Vec::new();
    let mut ip: usize = 0;
    while ip < program.len()
        invariant
            brackets_resolved(program@),
            0 <= ip <= program@.len(),
            optimized@.len() == ip,
            forall|i: int| 0 <= i < ip ==> optimized@[i] == spec_loop_fix(program@, i),
        decreases program@.len() - ip,
    {
        match program[ip] {
            TapeOp::LoopStart(_) => {
                let n = program.len();
                let mut level: u64 = 0;
                let mut j: usize = ip + 1;
                let mut done: bool = false;
                proof {
                    assert(find_close_from(program@, ip + 1, 0) is Some);
                }
                while !done
                    invariant
                        n == program@.len(),
                        ip < program@.len(),
                        ip + 1 <= j,
                        level <= j,
                        !done ==> find_close_from(program@, ip + 1, 0) == find_close_from(
                            program@,
                            j as int,
                            level as int,
                        ),
                        !done ==> find_close_from(program@, j as int, level as int) is Some,
                        done ==> find_close_from(program@, ip + 1, 0) == Some(j as int),
                    decreases program@.len() - j, (if done { 0int } else { 1int }),
                {
                    proof {
                        assert(j < program@.len());
                    }
                    match program[j] {
                        TapeOp::LoopEnd(_) => {
                            if level == 0 {
                                done = true;
                            } else {
                                level = level - 1;
                                j = j + 1;
                            }
                        },
                        TapeOp::LoopStart(_) => {
                            level = level + 1;
                            j = j + 1;
                        },
                        _ => {
                            j = j + 1;
                        },
                    }
                }
                optimized.push(TapeOp::LoopStart(j));
            },
            TapeOp::LoopEnd(_) => {
                let n = program.len();
                let mut level: u64 = 0;
                let mut j: usize = ip;
                let mut found: usize = 0;
                let mut done: bool = false;
                proof {
                    assert(n == program@.len());
                    assert(find_open_from(program@, ip - 1, 0) is Some);
                }
                // The scan starts one position below the bracket.
                while !done
                    invariant
                        0 <= ip < program@.len(),
                        program@.len() <= usize::MAX,
                        level as int <= ip - j + 1,
                        j <= ip,
                        !done ==> j >= 1,
                        !done ==> find_open_from(program@, ip - 1, 0) == find_open_from(
                            program@,
                            j - 1,
                            level as int,
                        ),
                        !done ==> find_open_from(program@, j - 1, level as int) is Some,
                        done ==> find_open_from(program@, ip - 1, 0) == Some(found as int),
                    decreases j, (if done { 0int } else { 1int }),
                {
                    let at = j - 1;
                    match program[at] {
                        TapeOp::LoopStart(_) => {
                            if level == 0 {
                                found = at;
                                done = true;
                            } else {
                                level = level - 1;
                                proof {
                                    assert(find_open_from(program@, at - 1, level as int)
                                        is Some);
                                }
                                j = at;
                            }
                        },
                        TapeOp::LoopEnd(_) => {
                            level = level + 1;
                            proof {
                                assert(find_open_from(program@, at - 1, level as int) is Some);
                            }
                            j = at;
                        },
                        _ => {
                            proof {
                                assert(find_open_from(program@, at - 1, level as int) is Some);
                            }
                            j = at;
                        },
                    }
                }
                optimized.push(TapeOp::LoopEnd(found));
            },
            x => {
                optimized.push(x);
            },
        }
        ip += 1;
    }
    optimized
}

} // verus!
