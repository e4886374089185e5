use kevs_vm::TapeOp;
use kevs_vm::optimize;
use kevs_vm::optimize_loops;

#[test]
fn optimize_merges_runs() {
    let program = vec![
        TapeOp::Increment(1),
        TapeOp::Increment(1),
        TapeOp::Increment(1),
        TapeOp::Right(1),
        TapeOp::Right(1),
        TapeOp::Decrement(1),
    ];
    let merged = optimize(program);
    assert_eq!(merged, vec![TapeOp::Increment(3), TapeOp::Right(2), TapeOp::Decrement(1)]);
}

#[test]
fn optimize_does_not_merge_brackets() {
    let program = vec![
        TapeOp::Increment(1),
        TapeOp::LoopStart(1),
        TapeOp::Decrement(1),
        TapeOp::LoopEnd(1),
        TapeOp::Increment(1),
    ];
    let merged = optimize(program);
    assert_eq!(
        merged,
        vec![
            TapeOp::Increment(1),
            TapeOp::LoopStart(0),
            TapeOp::Decrement(1),
            TapeOp::LoopEnd(0),
            TapeOp::Increment(1),
        ]
    );
}

#[test]
fn optimize_emits_adjacent_brackets_with_count_zero() {
    let program = vec![TapeOp::LoopStart(1), TapeOp::LoopStart(1)];
    let merged = optimize(program);
    assert_eq!(merged, vec![TapeOp::LoopStart(0), TapeOp::LoopStart(1)]);
}

#[test]
fn optimize_keeps_a_single_instruction() {
    let program = vec![TapeOp::Output(1)];
    assert_eq!(optimize(program), vec![TapeOp::Output(1)]);
}

#[test]
fn optimize_loops_resolves_partner_positions() {
    let program = vec![TapeOp::LoopStart(0), TapeOp::Increment(1), TapeOp::LoopEnd(0)];
    let fixed = optimize_loops(program);
    assert_eq!(fixed, vec![TapeOp::LoopStart(2), TapeOp::Increment(1), TapeOp::LoopEnd(0)]);
}

#[test]
fn optimize_loops_resolves_nested_brackets() {
    let program = vec![
        TapeOp::LoopStart(0),
        TapeOp::LoopStart(0),
        TapeOp::Decrement(1),
        TapeOp::LoopEnd(0),
        TapeOp::LoopEnd(0),
    ];
    let fixed = optimize_loops(program);
    assert_eq!(
        fixed,
        vec![
            TapeOp::LoopStart(4),
            TapeOp::LoopStart(3),
            TapeOp::Decrement(1),
            TapeOp::LoopEnd(1),
            TapeOp::LoopEnd(0),
        ]
    );
}

#[test]
fn optimize_loops_passes_plain_instructions_through() {
    let program = vec![TapeOp::Left(2), TapeOp::Input(1), TapeOp::Output(3)];
    let fixed = optimize_loops(program.clone());
    assert_eq!(fixed, program);
}
