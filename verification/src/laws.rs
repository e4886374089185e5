//! Cross-component statements: what compiling and then executing
//! yields, proved from the compiler's and the interpreter's contracts.

use vstd::prelude::*;

use crate::ast::BinaryOperator;
use crate::ast::Expression;
use crate::ast::ExpressionTail;
use crate::ast::Operand;
use crate::ast::ValueNode;
use crate::compile::CompileEnv;
use crate::compile::spec_compile_expression;
use crate::compile::spec_climb_expr;
use crate::compile::spec_climb_ops;
use crate::compile::spec_fixup;
use crate::instr::Opcode;
use crate::instr::Register;
use crate::interp::RunOutcome;
use crate::interp::VmError;
use crate::interp::VmView;
use crate::interp::spec_arith_add;
use crate::interp::spec_arith_div;
use crate::interp::spec_arith_mul;
use crate::interp::spec_arith_pow;
use crate::interp::spec_arith_sub;
use crate::interp::spec_run;
use crate::literal::spec_parse_i16;
use crate::value::AbstractValue;

verus! {

/// The instruction for one arithmetic operator over the two stack
/// slots at `rr` and `rr + 1`.
pub open spec fn binary_opcode(op: BinaryOperator, rr: Register) -> Opcode {
    match op {
        BinaryOperator::Add => Opcode::Add { dest: rr, in1: rr, in2: (rr + 1) as Register },
        BinaryOperator::Subtract => Opcode::Subtract {
            dest: rr,
            in1: rr,
            in2: (rr + 1) as Register,
        },
        BinaryOperator::Multiply => Opcode::Multiply {
            dest: rr,
            in1: rr,
            in2: (rr + 1) as Register,
        },
        BinaryOperator::Divide => Opcode::Divide { dest: rr, in1: rr, in2: (rr + 1) as Register },
        BinaryOperator::Power => Opcode::Power { dest: rr, in1: rr, in2: (rr + 1) as Register },
    }
}

/// The mathematical outcome one arithmetic operator assigns to two
/// values, as the interpreter defines it.
pub open spec fn binary_outcome(op: BinaryOperator, a: AbstractValue, b: AbstractValue) -> Result<
    AbstractValue,
    VmError,
> {
    match op {
        BinaryOperator::Add => spec_arith_add(a, b),
        BinaryOperator::Subtract => spec_arith_sub(a, b),
        BinaryOperator::Multiply => spec_arith_mul(a, b),
        BinaryOperator::Divide => spec_arith_div(a, b),
        BinaryOperator::Power => spec_arith_pow(a, b),
    }
}

/// Compile half of the literal-arithmetic law: the emitted code and
/// the untouched compiler state.
#[verifier::rlimit(60)]
#[verifier::spinoff_prover]
proof fn lemma_compile_literal_binary(
    e: Expression,
    ta: String,
    tb: String,
    op: BinaryOperator,
    va: i16,
    vb: i16,
    rr: Register,
    env: CompileEnv,
)
    requires
        e.first == Operand::Value(ValueNode::Number(ta)),
        e.rest@ =~= seq![ExpressionTail { op, operand: Operand::Value(ValueNode::Number(tb)) }],
        spec_parse_i16(ta@) == Some(va),
        spec_parse_i16(tb@) == Some(vb),
        rr < 254,
    ensures
        spec_compile_expression(e, rr, env) == Ok::<
            (Seq<Opcode>, CompileEnv),
            crate::compile::CompileError,
        >(
            (
                seq![
                    Opcode::LoadLiteral { dest: rr, value: va },
                    Opcode::LoadLiteral { dest: (rr + 1) as Register, value: vb },
                    binary_opcode(op, rr),
                ],
                env,
            ),
        ),
{
    reveal_with_fuel(spec_climb_expr, 3);
    reveal_with_fuel(spec_climb_ops, 4);
    reveal_with_fuel(spec_fixup, 4);
    let placeholder = seq![
        Opcode::LoadLiteral { dest: rr, value: va },
        Opcode::LoadLiteral { dest: rr, value: vb },
        crate::compile::spec_binop_placeholder(op),
    ];
    assert(spec_climb_expr(e, 0, 0, rr, env, 4) == Ok::<
        (Seq<Opcode>, int, CompileEnv),
        crate::compile::CompileError,
    >((placeholder, 2, env))) by {
        assert(seq![Opcode::LoadLiteral { dest: rr, value: va }] + seq![
            Opcode::LoadLiteral { dest: rr, value: vb },
        ] + seq![crate::compile::spec_binop_placeholder(op)] =~= placeholder);
    }
    assert(2 * e.rest@.len() + 2 == 4);
    let fixed = seq![
        Opcode::LoadLiteral { dest: rr, value: va },
        Opcode::LoadLiteral { dest: (rr + 1) as Register, value: vb },
        binary_opcode(op, rr),
    ];
    assert(placeholder.drop_first() =~= seq![
        Opcode::LoadLiteral { dest: rr, value: vb },
        crate::compile::spec_binop_placeholder(op),
    ]);
    assert(placeholder.drop_first().drop_first() =~= seq![
        crate::compile::spec_binop_placeholder(op),
    ]);
    assert(placeholder.drop_first().drop_first().drop_first() =~= Seq::<Opcode>::empty());
    assert(spec_fixup(placeholder, rr) == Ok::<Seq<Opcode>, crate::compile::CompileError>(fixed))
        by {
        assert(seq![binary_opcode(op, rr)] + Seq::<Opcode>::empty() =~= seq![
            binary_opcode(op, rr),
        ]);
        assert(seq![Opcode::LoadLiteral { dest: (rr + 1) as Register, value: vb }] + seq![
            binary_opcode(op, rr),
        ] =~= fixed.drop_first());
        assert(seq![Opcode::LoadLiteral { dest: rr, value: va }] + fixed.drop_first() =~= fixed);
    }
}

/// Run half of the literal-arithmetic law: what executing the emitted
/// code does to an arbitrary 256-register state.
#[verifier::rlimit(60)]
#[verifier::spinoff_prover]
proof fn lemma_run_literal_binary(op: BinaryOperator, va: i16, vb: i16, rr: Register, s: VmView)
    requires
        rr < 254,
        s.registers.len() == 256,
    ensures
        ({
            let code = seq![
                Opcode::LoadLiteral { dest: rr, value: va },
                Opcode::LoadLiteral { dest: (rr + 1) as Register, value: vb },
                binary_opcode(op, rr),
            ];
            let loaded = s.registers.update(rr as int, AbstractValue::Number(va as int)).update(
                rr + 1,
                AbstractValue::Number(vb as int),
            );
            match binary_outcome(
                op,
                AbstractValue::Number(va as int),
                AbstractValue::Number(vb as int),
            ) {
                Ok(v) => spec_run(code, s, 0, 3) == RunOutcome::Done(
                    VmView { registers: loaded.update(rr as int, v), ..s },
                ),
                Err(er) => spec_run(code, s, 0, 3) == RunOutcome::Failed(
                    er,
                    VmView { registers: loaded, ..s },
                ),
            }
        }),
{
    reveal_with_fuel(spec_run, 5);
    let loaded = s.registers.update(rr as int, AbstractValue::Number(va as int)).update(
        rr + 1,
        AbstractValue::Number(vb as int),
    );
    assert(loaded[rr as int] == AbstractValue::Number(va as int));
    assert(loaded[rr + 1] == AbstractValue::Number(vb as int));
}

/// Law: literal arithmetic computes its mathematical value. For an
/// expression of two numeric literals joined by one arithmetic
/// operator, compilation emits exactly two loads and the operator's
/// instruction over the stack slots at the target register, the
/// compiler state is unchanged, and executing that code from any
/// 256-register state leaves the operator's mathematical result in the
/// target register -- or stops with exactly the arithmetic error the
/// operator defines (division by zero, overflow, a negative exponent).
pub proof fn lemma_literal_arithmetic_single_operator(
    e: Expression,
    ta: String,
    tb: String,
    op: BinaryOperator,
    va: i16,
    vb: i16,
    rr: Register,
    env: CompileEnv,
    s: VmView,
)
    requires
        e.first == Operand::Value(ValueNode::Number(ta)),
        e.rest@ =~= seq![ExpressionTail { op, operand: Operand::Value(ValueNode::Number(tb)) }],
        spec_parse_i16(ta@) == Some(va),
        spec_parse_i16(tb@) == Some(vb),
        rr < 254,
        s.registers.len() == 256,
    ensures
        spec_compile_expression(e, rr, env) == Ok::<
            (Seq<Opcode>, CompileEnv),
            crate::compile::CompileError,
        >(
            (
                seq![
                    Opcode::LoadLiteral { dest: rr, value: va },
                    Opcode::LoadLiteral { dest: (rr + 1) as Register, value: vb },
                    binary_opcode(op, rr),
                ],
                env,
            ),
        ),
        ({
            let code = seq![
                Opcode::LoadLiteral { dest: rr, value: va },
                Opcode::LoadLiteral { dest: (rr + 1) as Register, value: vb },
                binary_opcode(op, rr),
            ];
            let loaded = s.registers.update(rr as int, AbstractValue::Number(va as int)).update(
                rr + 1,
                AbstractValue::Number(vb as int),
            );
            match binary_outcome(
                op,
                AbstractValue::Number(va as int),
                AbstractValue::Number(vb as int),
            ) {
                Ok(v) => spec_run(code, s, 0, 3) == RunOutcome::Done(
                    VmView { registers: loaded.update(rr as int, v), ..s },
                ),
                Err(er) => spec_run(code, s, 0, 3) == RunOutcome::Failed(
                    er,
                    VmView { registers: loaded, ..s },
                ),
            }
        }),
{
    lemma_compile_literal_binary(e, ta, tb, op, va, vb, rr, env);
    lemma_run_literal_binary(op, va, vb, rr, s);
}

/// Compile half of the precedence law: with the second operator
/// binding tighter (or both being the right-associative power), the
/// climbing pass folds the right pair first.
#[verifier::rlimit(100)]
#[verifier::spinoff_prover]
proof fn lemma_compile_literal_grouped_right(
    e: Expression,
    ta: String,
    tb: String,
    tc: String,
    op1: BinaryOperator,
    op2: BinaryOperator,
    va: i16,
    vb: i16,
    vc: i16,
    rr: Register,
    env: CompileEnv,
)
    requires
        e.first == Operand::Value(ValueNode::Number(ta)),
        e.rest@ =~= seq![
            ExpressionTail { op: op1, operand: Operand::Value(ValueNode::Number(tb)) },
            ExpressionTail { op: op2, operand: Operand::Value(ValueNode::Number(tc)) },
        ],
        crate::ast::spec_precedence_of(op2) > crate::ast::spec_precedence_of(op1) || (op1
            is Power && op2 is Power),
        spec_parse_i16(ta@) == Some(va),
        spec_parse_i16(tb@) == Some(vb),
        spec_parse_i16(tc@) == Some(vc),
        rr < 253,
    ensures
        spec_compile_expression(e, rr, env) == Ok::<
            (Seq<Opcode>, CompileEnv),
            crate::compile::CompileError,
        >(
            (
                seq![
                    Opcode::LoadLiteral { dest: rr, value: va },
                    Opcode::LoadLiteral { dest: (rr + 1) as Register, value: vb },
                    Opcode::LoadLiteral { dest: (rr + 2) as Register, value: vc },
                    binary_opcode(op2, (rr + 1) as Register),
                    binary_opcode(op1, rr),
                ],
                env,
            ),
        ),
{
    reveal_with_fuel(spec_climb_expr, 4);
    reveal_with_fuel(spec_climb_ops, 5);
    reveal_with_fuel(spec_fixup, 6);
    let la = Opcode::LoadLiteral { dest: rr, value: va };
    let lb = Opcode::LoadLiteral { dest: rr, value: vb };
    let lc = Opcode::LoadLiteral { dest: rr, value: vc };
    let ph1 = crate::compile::spec_binop_placeholder(op1);
    let ph2 = crate::compile::spec_binop_placeholder(op2);
    let placeholder = seq![la, lb, lc, ph2, ph1];
    assert(spec_climb_expr(e, 0, 0, rr, env, 6) == Ok::<
        (Seq<Opcode>, int, CompileEnv),
        crate::compile::CompileError,
    >((placeholder, 3, env))) by {
        assert(spec_climb_expr(e, 2, crate::ast::spec_precedence_of(op2), rr, env, 2) == Ok::<
            (Seq<Opcode>, int, CompileEnv),
            crate::compile::CompileError,
        >((seq![lc], 3, env)));
        assert(seq![lb] + seq![lc] + seq![ph2] =~= seq![lb, lc, ph2]);
        assert(spec_climb_expr(e, 1, (crate::ast::spec_precedence_of(op1) + 1) as u32, rr, env, 4)
            == Ok::<(Seq<Opcode>, int, CompileEnv), crate::compile::CompileError>(
            (seq![lb, lc, ph2], 3, env),
        ) || spec_climb_expr(e, 1, crate::ast::spec_precedence_of(op1), rr, env, 4) == Ok::<
            (Seq<Opcode>, int, CompileEnv),
            crate::compile::CompileError,
        >((seq![lb, lc, ph2], 3, env)));
        assert(seq![la] + seq![lb, lc, ph2] + seq![ph1] =~= placeholder);
    }
    assert(2 * e.rest@.len() + 2 == 6);
    let fixed = seq![
        Opcode::LoadLiteral { dest: rr, value: va },
        Opcode::LoadLiteral { dest: (rr + 1) as Register, value: vb },
        Opcode::LoadLiteral { dest: (rr + 2) as Register, value: vc },
        binary_opcode(op2, (rr + 1) as Register),
        binary_opcode(op1, rr),
    ];
    assert(placeholder.drop_first() =~= seq![lb, lc, ph2, ph1]);
    assert(placeholder.drop_first().drop_first() =~= seq![lc, ph2, ph1]);
    assert(placeholder.drop_first().drop_first().drop_first() =~= seq![ph2, ph1]);
    assert(placeholder.drop_first().drop_first().drop_first().drop_first() =~= seq![ph1]);
    assert(placeholder.drop_first().drop_first().drop_first().drop_first().drop_first() =~= Seq::<
        Opcode,
    >::empty());
    assert(spec_fixup(placeholder, rr) == Ok::<Seq<Opcode>, crate::compile::CompileError>(fixed))
        by {
        assert(seq![binary_opcode(op1, rr)] + Seq::<Opcode>::empty() =~= seq![
            binary_opcode(op1, rr),
        ]);
        assert(seq![binary_opcode(op2, (rr + 1) as Register)] + seq![binary_opcode(op1, rr)] =~= seq![
            binary_opcode(op2, (rr + 1) as Register),
            binary_opcode(op1, rr),
        ]);
        assert(seq![Opcode::LoadLiteral { dest: (rr + 2) as Register, value: vc }] + seq![
            binary_opcode(op2, (rr + 1) as Register),
            binary_opcode(op1, rr),
        ] =~= fixed.drop_first().drop_first());
        assert(seq![Opcode::LoadLiteral { dest: (rr + 1) as Register, value: vb }]
            + fixed.drop_first().drop_first() =~= fixed.drop_first());
        assert(seq![Opcode::LoadLiteral { dest: rr, value: va }] + fixed.drop_first() =~= fixed);
    }
}

/// Run half of the precedence law: the right pair is evaluated first,
/// then the outer operator.
#[verifier::rlimit(100)]
#[verifier::spinoff_prover]
proof fn lemma_run_literal_grouped_right(
    op1: BinaryOperator,
    op2: BinaryOperator,
    va: i16,
    vb: i16,
    vc: i16,
    rr: Register,
    s: VmView,
)
    requires
        rr < 253,
        s.registers.len() == 256,
    ensures
        ({
            let code = seq![
                Opcode::LoadLiteral { dest: rr, value: va },
                Opcode::LoadLiteral { dest: (rr + 1) as Register, value: vb },
                Opcode::LoadLiteral { dest: (rr + 2) as Register, value: vc },
                binary_opcode(op2, (rr + 1) as Register),
                binary_opcode(op1, rr),
            ];
            let loaded = s.registers.update(rr as int, AbstractValue::Number(va as int)).update(
                rr + 1,
                AbstractValue::Number(vb as int),
            ).update(rr + 2, AbstractValue::Number(vc as int));
            match binary_outcome(
                op2,
                AbstractValue::Number(vb as int),
                AbstractValue::Number(vc as int),
            ) {
                Ok(v2) => match binary_outcome(op1, AbstractValue::Number(va as int), v2) {
                    Ok(v) => spec_run(code, s, 0, 5) == RunOutcome::Done(
                        VmView {
                            registers: loaded.update(rr + 1, v2).update(rr as int, v),
                            ..s
                        },
                    ),
                    Err(er) => spec_run(code, s, 0, 5) == RunOutcome::Failed(
                        er,
                        VmView { registers: loaded.update(rr + 1, v2), ..s },
                    ),
                },
                Err(er) => spec_run(code, s, 0, 5) == RunOutcome::Failed(
                    er,
                    VmView { registers: loaded, ..s },
                ),
            }
        }),
{
    reveal_with_fuel(spec_run, 7);
    let loaded = s.registers.update(rr as int, AbstractValue::Number(va as int)).update(
        rr + 1,
        AbstractValue::Number(vb as int),
    ).update(rr + 2, AbstractValue::Number(vc as int));
    assert(loaded[rr as int] == AbstractValue::Number(va as int));
    assert(loaded[rr + 1] == AbstractValue::Number(vb as int));
    assert(loaded[rr + 2] == AbstractValue::Number(vc as int));
    match binary_outcome(op2, AbstractValue::Number(vb as int), AbstractValue::Number(vc as int)) {
        Ok(v2) => {
            let after2 = loaded.update(rr + 1, v2);
            assert(after2[rr as int] == AbstractValue::Number(va as int));
            assert(after2[rr + 1] == v2);
        },
        Err(_) => {
        },
    }
}

/// Law: precedence and associativity of literal arithmetic. For three
/// numeric literals joined by two operators where the second binds
/// tighter than the first -- or both are the right-associative power
/// operator -- the compiled program evaluates the right pair first:
/// the result is `a op1 (b op2 c)` by the interpreter's arithmetic.
/// This is the grouping behind `2 + 3 * 4 == 14` and
/// `2 ^ 3 ^ 2 == 512`.
pub proof fn lemma_literal_arithmetic_precedence(
    e: Expression,
    ta: String,
    tb: String,
    tc: String,
    op1: BinaryOperator,
    op2: BinaryOperator,
    va: i16,
    vb: i16,
    vc: i16,
    rr: Register,
    env: CompileEnv,
    s: VmView,
)
    requires
        e.first == Operand::Value(ValueNode::Number(ta)),
        e.rest@ =~= seq![
            ExpressionTail { op: op1, operand: Operand::Value(ValueNode::Number(tb)) },
            ExpressionTail { op: op2, operand: Operand::Value(ValueNode::Number(tc)) },
        ],
        crate::ast::spec_precedence_of(op2) > crate::ast::spec_precedence_of(op1) || (op1
            is Power && op2 is Power),
        spec_parse_i16(ta@) == Some(va),
        spec_parse_i16(tb@) == Some(vb),
        spec_parse_i16(tc@) == Some(vc),
        rr < 253,
        s.registers.len() == 256,
    ensures
        spec_compile_expression(e, rr, env) == Ok::<
            (Seq<Opcode>, CompileEnv),
            crate::compile::CompileError,
        >(
            (
                seq![
                    Opcode::LoadLiteral { dest: rr, value: va },
                    Opcode::LoadLiteral { dest: (rr + 1) as Register, value: vb },
                    Opcode::LoadLiteral { dest: (rr + 2) as Register, value: vc },
                    binary_opcode(op2, (rr + 1) as Register),
                    binary_opcode(op1, rr),
                ],
                env,
            ),
        ),
        ({
            let code = seq![
                Opcode::LoadLiteral { dest: rr, value: va },
                Opcode::LoadLiteral { dest: (rr + 1) as Register, value: vb },
                Opcode::LoadLiteral { dest: (rr + 2) as Register, value: vc },
                binary_opcode(op2, (rr + 1) as Register),
                binary_opcode(op1, rr),
            ];
            let loaded = s.registers.update(rr as int, AbstractValue::Number(va as int)).update(
                rr + 1,
                AbstractValue::Number(vb as int),
            ).update(rr + 2, AbstractValue::Number(vc as int));
            match binary_outcome(
                op2,
                AbstractValue::Number(vb as int),
                AbstractValue::Number(vc as int),
            ) {
                Ok(v2) => match binary_outcome(op1, AbstractValue::Number(va as int), v2) {
                    Ok(v) => spec_run(code, s, 0, 5) == RunOutcome::Done(
                        VmView {
                            registers: loaded.update(rr + 1, v2).update(rr as int, v),
                            ..s
                        },
                    ),
                    Err(er) => spec_run(code, s, 0, 5) == RunOutcome::Failed(
                        er,
                        VmView { registers: loaded.update(rr + 1, v2), ..s },
                    ),
                },
                Err(er) => spec_run(code, s, 0, 5) == RunOutcome::Failed(
                    er,
                    VmView { registers: loaded, ..s },
                ),
            }
        }),
{
    lemma_compile_literal_grouped_right(e, ta, tb, tc, op1, op2, va, vb, vc, rr, env);
    lemma_run_literal_grouped_right(op1, op2, va, vb, vc, rr, s);
}

/// Compile half of the associativity law: with the second operator
/// binding no tighter than the first (and not both being the
/// right-associative power), the climbing pass folds the left pair
/// first.
#[verifier::rlimit(100)]
#[verifier::spinoff_prover]
proof fn lemma_compile_literal_grouped_left(
    e: Expression,
    ta: String,
    tb: String,
    tc: String,
    op1: BinaryOperator,
    op2: BinaryOperator,
    va: i16,
    vb: i16,
    vc: i16,
    rr: Register,
    env: CompileEnv,
)
    requires
        e.first == Operand::Value(ValueNode::Number(ta)),
        e.rest@ =~= seq![
            ExpressionTail { op: op1, operand: Operand::Value(ValueNode::Number(tb)) },
            ExpressionTail { op: op2, operand: Operand::Value(ValueNode::Number(tc)) },
        ],
        crate::ast::spec_precedence_of(op2) <= crate::ast::spec_precedence_of(op1),
        !(op1 is Power && op2 is Power),
        spec_parse_i16(ta@) == Some(va),
        spec_parse_i16(tb@) == Some(vb),
        spec_parse_i16(tc@) == Some(vc),
        rr < 254,
    ensures
        spec_compile_expression(e, rr, env) == Ok::<
            (Seq<Opcode>, CompileEnv),
            crate::compile::CompileError,
        >(
            (
                seq![
                    Opcode::LoadLiteral { dest: rr, value: va },
                    Opcode::LoadLiteral { dest: (rr + 1) as Register, value: vb },
                    binary_opcode(op1, rr),
                    Opcode::LoadLiteral { dest: (rr + 1) as Register, value: vc },
                    binary_opcode(op2, rr),
                ],
                env,
            ),
        ),
{
    reveal_with_fuel(spec_climb_expr, 2);
    reveal_with_fuel(spec_climb_ops, 3);
    reveal_with_fuel(spec_fixup, 6);
    let la = Opcode::LoadLiteral { dest: rr, value: va };
    let lb = Opcode::LoadLiteral { dest: rr, value: vb };
    let lc = Opcode::LoadLiteral { dest: rr, value: vc };
    let ph1 = crate::compile::spec_binop_placeholder(op1);
    let ph2 = crate::compile::spec_binop_placeholder(op2);
    let placeholder = seq![la, lb, ph1, lc, ph2];
    let prec1 = crate::ast::spec_precedence_of(op1);
    let prec2 = crate::ast::spec_precedence_of(op2);
    let next1: u32 = if crate::ast::spec_is_right_assoc(op1) {
        prec1
    } else {
        (prec1 + 1) as u32
    };
    let next2: u32 = if crate::ast::spec_is_right_assoc(op2) {
        prec2
    } else {
        (prec2 + 1) as u32
    };
    assert(prec2 < next1);
    assert(spec_climb_ops(e, seq![lb], 2, next1, rr, env, 3) == Ok::<
        (Seq<Opcode>, int, CompileEnv),
        crate::compile::CompileError,
    >((seq![lb], 2, env)));
    assert(spec_climb_expr(e, 1, next1, rr, env, 4) == Ok::<
        (Seq<Opcode>, int, CompileEnv),
        crate::compile::CompileError,
    >((seq![lb], 2, env)));
    assert(spec_climb_ops(e, seq![lc], 3, next2, rr, env, 2) == Ok::<
        (Seq<Opcode>, int, CompileEnv),
        crate::compile::CompileError,
    >((seq![lc], 3, env)));
    assert(spec_climb_expr(e, 2, next2, rr, env, 3) == Ok::<
        (Seq<Opcode>, int, CompileEnv),
        crate::compile::CompileError,
    >((seq![lc], 3, env)));
    assert(spec_climb_ops(e, seq![la, lb, ph1], 3, 0, rr, env, 4) == Ok::<
        (Seq<Opcode>, int, CompileEnv),
        crate::compile::CompileError,
    >((seq![la, lb, ph1], 3, env)));
    assert(spec_climb_ops(e, seq![la, lb, ph1], 2, 0, rr, env, 4) == Ok::<
        (Seq<Opcode>, int, CompileEnv),
        crate::compile::CompileError,
    >((placeholder, 3, env))) by {
        assert(seq![la, lb, ph1] + seq![lc] + seq![ph2] =~= placeholder);
    }
    assert(spec_climb_ops(e, seq![la], 1, 0, rr, env, 5) == Ok::<
        (Seq<Opcode>, int, CompileEnv),
        crate::compile::CompileError,
    >((placeholder, 3, env))) by {
        assert(seq![la] + seq![lb] + seq![ph1] =~= seq![la, lb, ph1]);
    }
    assert(spec_climb_expr(e, 0, 0, rr, env, 6) == Ok::<
        (Seq<Opcode>, int, CompileEnv),
        crate::compile::CompileError,
    >((placeholder, 3, env)));
    assert(2 * e.rest@.len() + 2 == 6);
    let fixed = seq![
        Opcode::LoadLiteral { dest: rr, value: va },
        Opcode::LoadLiteral { dest: (rr + 1) as Register, value: vb },
        binary_opcode(op1, rr),
        Opcode::LoadLiteral { dest: (rr + 1) as Register, value: vc },
        binary_opcode(op2, rr),
    ];
    assert(placeholder.drop_first() =~= seq![lb, ph1, lc, ph2]);
    assert(placeholder.drop_first().drop_first() =~= seq![ph1, lc, ph2]);
    assert(placeholder.drop_first().drop_first().drop_first() =~= seq![lc, ph2]);
    assert(placeholder.drop_first().drop_first().drop_first().drop_first() =~= seq![ph2]);
    assert(placeholder.drop_first().drop_first().drop_first().drop_first().drop_first() =~= Seq::<
        Opcode,
    >::empty());
    assert(spec_fixup(placeholder, rr) == Ok::<Seq<Opcode>, crate::compile::CompileError>(fixed))
        by {
        assert(seq![binary_opcode(op2, rr)] + Seq::<Opcode>::empty() =~= seq![
            binary_opcode(op2, rr),
        ]);
        assert(seq![Opcode::LoadLiteral { dest: (rr + 1) as Register, value: vc }] + seq![
            binary_opcode(op2, rr),
        ] =~= fixed.drop_first().drop_first().drop_first());
        assert(seq![binary_opcode(op1, rr)] + fixed.drop_first().drop_first().drop_first()
            =~= fixed.drop_first().drop_first());
        assert(seq![Opcode::LoadLiteral { dest: (rr + 1) as Register, value: vb }]
            + fixed.drop_first().drop_first() =~= fixed.drop_first());
        assert(seq![Opcode::LoadLiteral { dest: rr, value: va }] + fixed.drop_first() =~= fixed);
    }
}

/// Run half of the associativity law: the left pair is evaluated
/// first, then the second operator.
#[verifier::rlimit(100)]
#[verifier::spinoff_prover]
proof fn lemma_run_literal_grouped_left(
    op1: BinaryOperator,
    op2: BinaryOperator,
    va: i16,
    vb: i16,
    vc: i16,
    rr: Register,
    s: VmView,
)
    requires
        rr < 254,
        s.registers.len() == 256,
    ensures
        ({
            let code = seq![
                Opcode::LoadLiteral { dest: rr, value: va },
                Opcode::LoadLiteral { dest: (rr + 1) as Register, value: vb },
                binary_opcode(op1, rr),
                Opcode::LoadLiteral { dest: (rr + 1) as Register, value: vc },
                binary_opcode(op2, rr),
            ];
            let loaded = s.registers.update(rr as int, AbstractValue::Number(va as int)).update(
                rr + 1,
                AbstractValue::Number(vb as int),
            );
            match binary_outcome(
                op1,
                AbstractValue::Number(va as int),
                AbstractValue::Number(vb as int),
            ) {
                Ok(v1) => {
                    let step4 = loaded.update(rr as int, v1).update(
                        rr + 1,
                        AbstractValue::Number(vc as int),
                    );
                    match binary_outcome(op2, v1, AbstractValue::Number(vc as int)) {
                        Ok(v) => spec_run(code, s, 0, 5) == RunOutcome::Done(
                            VmView { registers: step4.update(rr as int, v), ..s },
                        ),
                        Err(er) => spec_run(code, s, 0, 5) == RunOutcome::Failed(
                            er,
                            VmView { registers: step4, ..s },
                        ),
                    }
                },
                Err(er) => spec_run(code, s, 0, 5) == RunOutcome::Failed(
                    er,
                    VmView { registers: loaded, ..s },
                ),
            }
        }),
{
    reveal_with_fuel(spec_run, 7);
    let loaded = s.registers.update(rr as int, AbstractValue::Number(va as int)).update(
        rr + 1,
        AbstractValue::Number(vb as int),
    );
    assert(loaded[rr as int] == AbstractValue::Number(va as int));
    assert(loaded[rr + 1] == AbstractValue::Number(vb as int));
    match binary_outcome(op1, AbstractValue::Number(va as int), AbstractValue::Number(vb as int)) {
        Ok(v1) => {
            let step4 = loaded.update(rr as int, v1).update(
                rr + 1,
                AbstractValue::Number(vc as int),
            );
            assert(step4[rr as int] == v1);
            assert(step4[rr + 1] == AbstractValue::Number(vc as int));
        },
        Err(_) => {
        },
    }
}

/// Law: left associativity of literal arithmetic. For three numeric
/// literals joined by two operators where the second binds no tighter
/// than the first (and the two are not both the right-associative
/// power), the compiled program evaluates the left pair first: the
/// result is `(a op1 b) op2 c` by the interpreter's arithmetic. This
/// is the grouping behind `10 - 3 - 2 == 5`.
pub proof fn lemma_literal_arithmetic_left_associativity(
    e: Expression,
    ta: String,
    tb: String,
    tc: String,
    op1: BinaryOperator,
    op2: BinaryOperator,
    va: i16,
    vb: i16,
    vc: i16,
    rr: Register,
    env: CompileEnv,
    s: VmView,
)
    requires
        e.first == Operand::Value(ValueNode::Number(ta)),
        e.rest@ =~= seq![
            ExpressionTail { op: op1, operand: Operand::Value(ValueNode::Number(tb)) },
            ExpressionTail { op: op2, operand: Operand::Value(ValueNode::Number(tc)) },
        ],
        crate::ast::spec_precedence_of(op2) <= crate::ast::spec_precedence_of(op1),
        !(op1 is Power && op2 is Power),
        spec_parse_i16(ta@) == Some(va),
        spec_parse_i16(tb@) == Some(vb),
        spec_parse_i16(tc@) == Some(vc),
        rr < 254,
        s.registers.len() == 256,
    ensures
        ({
            let code = seq![
                Opcode::LoadLiteral { dest: rr, value: va },
                Opcode::LoadLiteral { dest: (rr + 1) as Register, value: vb },
                binary_opcode(op1, rr),
                Opcode::LoadLiteral { dest: (rr + 1) as Register, value: vc },
                binary_opcode(op2, rr),
            ];
            spec_compile_expression(e, rr, env) == Ok::<
                (Seq<Opcode>, CompileEnv),
                crate::compile::CompileError,
            >((code, env)) && {
                let loaded = s.registers.update(
                    rr as int,
                    AbstractValue::Number(va as int),
                ).update(rr + 1, AbstractValue::Number(vb as int));
                match binary_outcome(
                    op1,
                    AbstractValue::Number(va as int),
                    AbstractValue::Number(vb as int),
                ) {
                    Ok(v1) => {
                        let step4 = loaded.update(rr as int, v1).update(
                            rr + 1,
                            AbstractValue::Number(vc as int),
                        );
                        match binary_outcome(op2, v1, AbstractValue::Number(vc as int)) {
                            Ok(v) => spec_run(code, s, 0, 5) == RunOutcome::Done(
                                VmView { registers: step4.update(rr as int, v), ..s },
                            ),
                            Err(er) => spec_run(code, s, 0, 5) == RunOutcome::Failed(
                                er,
                                VmView { registers: step4, ..s },
                            ),
                        }
                    },
                    Err(er) => spec_run(code, s, 0, 5) == RunOutcome::Failed(
                        er,
                        VmView { registers: loaded, ..s },
                    ),
                }
            }
        }),
{
    lemma_compile_literal_grouped_left(e, ta, tb, tc, op1, op2, va, vb, vc, rr, env);
    lemma_run_literal_grouped_left(op1, op2, va, vb, vc, rr, s);
}

} // verus!
