//! The compiler: parse-tree nodes in, flat instruction sequences out.
//!
//! Compilation threads a single [`CompileData`] through every call: the
//! name-to-register binding table, the "first unused register" cursor,
//! the syscall name table, and the growing constant pool. Every
//! compilation function is deterministic: its contract pins the emitted
//! code and the updated state to a spec-level twin, so compiling the
//! same program from the same state twice yields identical instruction
//! sequences.

use vstd::prelude::*;

use crate::ast::AssignTarget;
use crate::ast::BinaryOperator;
use crate::ast::Comparison;
use crate::ast::ComparisonOperator;
use crate::ast::Expression;
use crate::ast::Operand;
use crate::ast::Statement;
use crate::ast::ValueNode;
use crate::ast::is_right_assoc;
use crate::ast::precedence_of;
use crate::ast::spec_is_right_assoc;
use crate::ast::spec_precedence_of;
use crate::instr::LiteralInteger;
use crate::instr::Opcode;
use crate::instr::Register;
use crate::literal::parse_i16;
use crate::literal::spec_parse_i16;
use crate::value::AbstractValue;
use crate::value::Value;
use crate::value::lemma_models;
use crate::value::lemma_models_push;
use crate::value::models;

verus! {

broadcast use lemma_models, lemma_models_push;

/// A fatal compile-time error. Compilation aborts on the first one.
#[derive(Clone, Debug, PartialEq, Eq)]
pub enum CompileError {
    /// An expression read a name with no register binding.
    UnknownVariable(String),
    /// An array access read a name with no register binding.
    UnknownArray(String),
    /// A call named a syscall the registry does not know.
    UnknownFunction(String),
    /// Literal text that is not a decimal numeral fitting the 16-bit
    /// immediate width.
    InvalidLiteral(String),
    /// The constant pool outgrew the 16-bit index range.
    TooManyConstants,
    /// The program needed more than the 256 registers of the file.
    TooManyRegisters,
    /// A block was too long for a 16-bit relative jump offset.
    OffsetTooLarge,
    /// The register-assignment pass met an instruction sequence that no
    /// expression produces.
    MalformedExpression,
}

/// Compiler state threaded through every compilation call.
///
/// `variable_lookup` maps each bound name to its home register;
/// `first_unused_register` is the high-water cursor above all bindings;
/// `syscall_name_lookup` is the (read-only) name-to-id half of the
/// syscall registry; `constant_table` is the growing constant pool.
pub struct CompileData {
    pub variable_lookup: Vec<(String, Register)>,
    pub first_unused_register: Register,
    pub syscall_name_lookup: Vec<(String, LiteralInteger)>,
    pub constant_table: Vec<Value>,
}

/// The mathematical abstraction of [`CompileData`]: name tables as
/// sequences of (character sequence, value) pairs, the constant pool as
/// a sequence of abstract values.
#[verifier::ext_equal]
pub ghost struct CompileEnv {
    pub vars: Seq<(Seq<char>, Register)>,
    pub first_unused_register: Register,
    pub syscalls: Seq<(Seq<char>, LiteralInteger)>,
    pub constants: Seq<AbstractValue>,
}

/// The abstraction of a name table.
pub open spec fn table_view<V>(entries: Seq<(String, V)>) -> Seq<(Seq<char>, V)> {
    Seq::new(entries.len(), |i: int| (entries[i].0@, entries[i].1))
}

/// The abstraction of a full compiler state.
pub open spec fn env_of(d: CompileData) -> CompileEnv {
    CompileEnv {
        vars: table_view(d.variable_lookup@),
        first_unused_register: d.first_unused_register,
        syscalls: table_view(d.syscall_name_lookup@),
        constants: models(d.constant_table@),
    }
}

/// First-match lookup in a name table.
pub open spec fn spec_lookup<V>(entries: Seq<(Seq<char>, V)>, name: Seq<char>) -> Option<V>
    decreases entries.len(),
{
    if entries.len() == 0 {
        None
    } else if entries[0].0 == name {
        Some(entries[0].1)
    } else {
        spec_lookup(entries.drop_first(), name)
    }
}

/// Scans a name table for `name`; returns the bound value of the first
/// match, exactly as [`spec_lookup`] describes.
fn lookup_table<V: Copy>(entries: &Vec<(String, V)>, name: &String) -> (r: Option<V>)
    ensures
        r == spec_lookup(table_view(entries@), name@),
{
    let ghost tv = table_view(entries@);
    proof {
        assert(tv.skip(0) =~= tv);
    }
    let mut i: usize = 0;
    while i < entries.len()
        invariant
            tv == table_view(entries@),
            0 <= i <= entries.len(),
            tv.len() == entries.len(),
            spec_lookup(tv, name@) == spec_lookup(tv.skip(i as int), name@),
        decreases entries.len() - i,
    {
        if entries[i].0 == *name {
            assert(tv.skip(i as int)[0] == tv[i as int]);
            return Some(entries[i].1);
        }
        proof {
            assert(tv.skip(i as int)[0] == tv[i as int]);
            assert(tv.skip(i as int).drop_first() =~= tv.skip(i + 1));
        }
        i += 1;
    }
    proof {
        assert(tv.skip(entries.len() as int) =~= Seq::empty());
    }
    None
}

/// Builds fresh compiler state around the given syscall name table: no
/// bindings, cursor at register zero, an empty constant pool.
pub fn build_compile_data(syscall_name_lookup: Vec<(String, LiteralInteger)>) -> (d: CompileData)
    ensures
        env_of(d) == (CompileEnv {
            vars: Seq::empty(),
            first_unused_register: 0,
            syscalls: table_view(syscall_name_lookup@),
            constants: Seq::empty(),
        }),
{
    let d = CompileData {
        variable_lookup: Vec::new(),
        first_unused_register: 0,
        syscall_name_lookup,
        constant_table: Vec::new(),
    };
    proof {
        assert(table_view(d.variable_lookup@) =~= Seq::<(Seq<char>, Register)>::empty());
        assert(models(d.constant_table@) =~= Seq::<AbstractValue>::empty());
        assert(env_of(d) =~= (CompileEnv {
            vars: Seq::empty(),
            first_unused_register: 0,
            syscalls: table_view(d.syscall_name_lookup@),
            constants: Seq::empty(),
        }));
    }
    d
}

/// One character as a `Character` value.
pub open spec fn char_value(c: char) -> AbstractValue {
    AbstractValue::Character(c)
}

/// A character sequence as a sequence of `Character` values.
pub open spec fn char_values(text: Seq<char>) -> Seq<AbstractValue>
    decreases text.len(),
{
    if text.len() == 0 {
        Seq::empty()
    } else {
        char_values(text.drop_last()).push(char_value(text.last()))
    }
}

/// `char_values` maps the sequence element by element.
pub broadcast proof fn lemma_char_values(text: Seq<char>)
    ensures
        #[trigger] char_values(text).len() == text.len(),
        forall|i: int| 0 <= i < text.len() ==> char_values(text)[i] == AbstractValue::Character(
            text[i],
        ),
    decreases text.len(),
{
    if text.len() > 0 {
        lemma_char_values(text.drop_last());
        assert(char_values(text) == char_values(text.drop_last()).push(
            char_value(text.last()),
        ));
        assert forall|i: int| 0 <= i < text.len() implies char_values(text)[i]
            == AbstractValue::Character(text[i]) by {
            if i < text.len() - 1 {
                assert(char_values(text)[i] == char_values(text.drop_last())[i]);
                assert(text.drop_last()[i] == text[i]);
            }
        }
    }
}

/// The constant-pool entry a string literal becomes: an array of its
/// characters.
pub open spec fn string_constant(text: Seq<char>) -> AbstractValue {
    AbstractValue::Array(char_values(text))
}

/// Relates an executable compilation result and final state to the
/// spec-level outcome: on success the code and the new state agree; on
/// failure the error agrees.
pub open spec fn compile_matches(
    r: Result<Seq<Opcode>, CompileError>,
    env2: CompileEnv,
    s: Result<(Seq<Opcode>, CompileEnv), CompileError>,
) -> bool {
    match s {
        Ok(t) => r == Ok::<Seq<Opcode>, CompileError>(t.0) && env2 == t.1,
        Err(e) => r == Err::<Seq<Opcode>, CompileError>(e),
    }
}

/// The abstraction of an executable compilation result.
pub open spec fn code_view(r: Result<Vec<Opcode>, CompileError>) -> Result<
    Seq<Opcode>,
    CompileError,
> {
    match r {
        Ok(v) => Ok(v@),
        Err(e) => Err(e),
    }
}

/// What compiling one expression leaf emits, and how it changes the
/// compiler state.
///
/// A numeric literal loads an immediate. A bound identifier copies from
/// its home register. A string literal appends an array constant to the
/// pool and loads it through the pool index staged in the destination
/// register. An array-element read stages the index one register above
/// the destination, then fetches. Unknown names and malformed or
/// oversized literals are fatal.
pub open spec fn spec_compile_value(v: ValueNode, result_reg: Register, env: CompileEnv) -> Result<
    (Seq<Opcode>, CompileEnv),
    CompileError,
> {
    match v {
        ValueNode::Number(text) => match spec_parse_i16(text@) {
            Some(n) => Ok((seq![Opcode::LoadLiteral { dest: result_reg, value: n }], env)),
            None => Err(CompileError::InvalidLiteral(text)),
        },
        ValueNode::Ident(name) => match spec_lookup(env.vars, name@) {
            Some(home) => Ok(
                (seq![Opcode::CopyRegister { dest: result_reg, copy_from: home }], env),
            ),
            None => Err(CompileError::UnknownVariable(name)),
        },
        ValueNode::StringLit(text) => if env.constants.len() > 32767 {
            Err(CompileError::TooManyConstants)
        } else {
            Ok(
                (
                    seq![
                        Opcode::LoadLiteral {
                            dest: result_reg,
                            value: env.constants.len() as LiteralInteger,
                        },
                        Opcode::CopyConstant { dest: result_reg, const_lookup: result_reg },
                    ],
                    CompileEnv { constants: env.constants.push(string_constant(text@)), ..env },
                ),
            )
        },
        ValueNode::ArrayElement { array, index } => if result_reg == 255 {
            Err(CompileError::TooManyRegisters)
        } else {
            match spec_parse_i16(index@) {
                Some(n) => match spec_lookup(env.vars, array@) {
                    Some(home) => Ok(
                        (
                            seq![
                                Opcode::LoadLiteral { dest: (result_reg + 1) as Register, value: n },
                                Opcode::ArrayGet {
                                    array_reg: home,
                                    index: (result_reg + 1) as Register,
                                    dest: result_reg,
                                },
                            ],
                            env,
                        ),
                    ),
                    None => Err(CompileError::UnknownArray(array)),
                },
                None => Err(CompileError::InvalidLiteral(index)),
            }
        },
    }
}

/// Compiles one expression leaf into the load sequence that leaves its
/// value in `result_reg`, exactly as [`spec_compile_value`] describes.
pub fn compile_value(value: &ValueNode, result_reg: Register, data: &mut CompileData) -> (r:
    Result<Vec<Opcode>, CompileError>)
    ensures
        compile_matches(
            code_view(r),
            env_of(*final(data)),
            spec_compile_value(*value, result_reg, env_of(*old(data))),
        ),
{
    match value {
        ValueNode::Number(text) => match parse_i16(text.as_str()) {
            Some(n) => {
                let mut code: Vec<Opcode> = Vec::new();
                code.push(Opcode::LoadLiteral { dest: result_reg, value: n });
                proof {
                    assert(code@ =~= seq![Opcode::LoadLiteral { dest: result_reg, value: n }]);
                }
                Ok(code)
            },
            None => Err(CompileError::InvalidLiteral(text.clone())),
        },
        ValueNode::Ident(name) => match lookup_table(&data.variable_lookup, name) {
            Some(home) => {
                let mut code: Vec<Opcode> = Vec::new();
                code.push(Opcode::CopyRegister { dest: result_reg, copy_from: home });
                proof {
                    assert(code@ =~= seq![
                        Opcode::CopyRegister { dest: result_reg, copy_from: home },
                    ]);
                }
                Ok(code)
            },
            None => Err(CompileError::UnknownVariable(name.clone())),
        },
        ValueNode::StringLit(text) => {
            if data.constant_table.len() > 32767 {
                return Err(CompileError::TooManyConstants);
            }
            let pool_index = data.constant_table.len() as LiteralInteger;
            let n = text.as_str().unicode_len();
            let mut chars: Vec<Value> = Vec::new();
            let mut i: usize = 0;
            while i < n
        invariant
            n == text@.len(),
            0 <= i <= n,
            chars@.len() == i,
            forall|j: int| 0 <= j < i ==> chars@[j] == Value::Character(text@[j]),
        decreases n - i,
            {
                chars.push(Value::Character(text.as_str().get_char(i)));
                i += 1;
            }
            proof {
                lemma_models(chars@);
                lemma_char_values(text@);
                assert(models(chars@) =~= char_values(text@));
                assert(Value::Array(chars).model() == string_constant(text@));
            }
            data.constant_table.push(Value::Array(chars));
            let mut code: Vec<Opcode> = Vec::new();
            code.push(Opcode::LoadLiteral { dest: result_reg, value: pool_index });
            code.push(Opcode::CopyConstant { dest: result_reg, const_lookup: result_reg });
            proof {
                assert(code@ =~= seq![
                    Opcode::LoadLiteral { dest: result_reg, value: pool_index },
                    Opcode::CopyConstant { dest: result_reg, const_lookup: result_reg },
                ]);
                assert(env_of(*data) =~= (CompileEnv {
                    constants: env_of(*old(data)).constants.push(string_constant(text@)),
                    ..env_of(*old(data))
                }));
            }
            Ok(code)
        },
        ValueNode::ArrayElement { array, index } => {
            if result_reg == 255 {
                return Err(CompileError::TooManyRegisters);
            }
            match parse_i16(index.as_str()) {
                Some(n) => match lookup_table(&data.variable_lookup, array) {
                    Some(home) => {
                        let mut code: Vec<Opcode> = Vec::new();
                        code.push(Opcode::LoadLiteral { dest: result_reg + 1, value: n });
                        code.push(Opcode::ArrayGet {
                            array_reg: home,
                            index: result_reg + 1,
                            dest: result_reg,
                        });
                        proof {
                            assert(code@ =~= seq![
                                Opcode::LoadLiteral {
                                    dest: (result_reg + 1) as Register,
                                    value: n,
                                },
                                Opcode::ArrayGet {
                                    array_reg: home,
                                    index: (result_reg + 1) as Register,
                                    dest: result_reg,
                                },
                            ]);
                        }
                        Ok(code)
                    },
                    None => Err(CompileError::UnknownArray(array.clone())),
                },
                None => Err(CompileError::InvalidLiteral(index.clone())),
            }
        },
    }
}

/// The placeholder instruction the climbing pass emits for a binary
/// operator: all register operands zero, to be assigned by the
/// register pass.
pub open spec fn spec_binop_placeholder(op: BinaryOperator) -> Opcode {
    match op {
        BinaryOperator::Add => Opcode::Add { dest: 0, in1: 0, in2: 0 },
        BinaryOperator::Subtract => Opcode::Subtract { dest: 0, in1: 0, in2: 0 },
        BinaryOperator::Multiply => Opcode::Multiply { dest: 0, in1: 0, in2: 0 },
        BinaryOperator::Divide => Opcode::Divide { dest: 0, in1: 0, in2: 0 },
        BinaryOperator::Power => Opcode::Power { dest: 0, in1: 0, in2: 0 },
    }
}

/// Exec mirror of [`spec_binop_placeholder`].
fn binop_placeholder(op: BinaryOperator) -> (r: Opcode)
    ensures
        r == spec_binop_placeholder(op),
{
    match op {
        BinaryOperator::Add => Opcode::Add { dest: 0, in1: 0, in2: 0 },
        BinaryOperator::Subtract => Opcode::Subtract { dest: 0, in1: 0, in2: 0 },
        BinaryOperator::Multiply => Opcode::Multiply { dest: 0, in1: 0, in2: 0 },
        BinaryOperator::Divide => Opcode::Divide { dest: 0, in1: 0, in2: 0 },
        BinaryOperator::Power => Opcode::Power { dest: 0, in1: 0, in2: 0 },
    }
}

/// Operand number `k` of a flat expression: `first` for zero, then the
/// operand of each `operator operand` pair.
pub open spec fn spec_operand_at(e: Expression, k: int) -> Operand {
    if k == 0 {
        e.first
    } else {
        e.rest@[k - 1].operand
    }
}

/// One step of the climbing pass: compile operand `k`, then fold in
/// every following operator that binds at least as tightly as
/// `min_prec`. Returns the placeholder code, the index of the first
/// unconsumed operand, and the updated state. `fuel` bounds the
/// recursion depth; the compiler always supplies enough for the whole
/// expression.
pub open spec fn spec_climb_expr(
    e: Expression,
    k: int,
    min_prec: u32,
    result_reg: Register,
    env: CompileEnv,
    fuel: nat,
) -> Result<(Seq<Opcode>, int, CompileEnv), CompileError>
    decreases e, fuel,
{
    if fuel == 0 || !(0 <= k <= e.rest@.len()) {
        Err(CompileError::MalformedExpression)
    } else {
        match spec_climb_operand(spec_operand_at(e, k), result_reg, env) {
            Ok(t) => spec_climb_ops(e, t.0, k + 1, min_prec, result_reg, t.1, (fuel - 1) as nat),
            Err(er) => Err(er),
        }
    }
}

/// The operator-folding loop of the climbing pass: while the operator
/// pairing with operand `j` binds at least as tightly as `min_prec`,
/// climb its right-hand side (one tier tighter for left-associative
/// operators, the same tier for right-associative ones) and append
/// `lhs ++ rhs ++ operator placeholder`.
pub open spec fn spec_climb_ops(
    e: Expression,
    lhs: Seq<Opcode>,
    j: int,
    min_prec: u32,
    result_reg: Register,
    env: CompileEnv,
    fuel: nat,
) -> Result<(Seq<Opcode>, int, CompileEnv), CompileError>
    decreases e, fuel,
{
    if fuel == 0 {
        Err(CompileError::MalformedExpression)
    } else if j > e.rest@.len() {
        Ok((lhs, j, env))
    } else {
        let op = e.rest@[j - 1].op;
        if spec_precedence_of(op) < min_prec {
            Ok((lhs, j, env))
        } else {
            let next_min: u32 = if spec_is_right_assoc(op) {
                spec_precedence_of(op)
            } else {
                (spec_precedence_of(op) + 1) as u32
            };
            match spec_climb_expr(e, j, next_min, result_reg, env, (fuel - 1) as nat) {
                Ok(t) => spec_climb_ops(
                    e,
                    lhs + t.0 + seq![spec_binop_placeholder(op)],
                    t.1,
                    min_prec,
                    result_reg,
                    t.2,
                    (fuel - 1) as nat,
                ),
                Err(er) => Err(er),
            }
        }
    }
}

/// What compiling one operand emits: a leaf goes through
/// [`spec_compile_value`]; a parenthesized subexpression is compiled
/// whole, one register above the current one.
pub open spec fn spec_climb_operand(
    o: Operand,
    result_reg: Register,
    env: CompileEnv,
) -> Result<(Seq<Opcode>, CompileEnv), CompileError>
    decreases o, 0nat,
{
    match o {
        Operand::Value(v) => spec_compile_value(v, result_reg, env),
        Operand::Subexpression(sub) => if result_reg == 255 {
            Err(CompileError::TooManyRegisters)
        } else {
            spec_compile_expression(*sub, (result_reg + 1) as Register, env)
        },
    }
}

/// The cursor effect of one placeholder instruction in the register
/// pass, with the cursor standing where the next value would be pushed:
/// a load-type instruction (`LoadLiteral`, `CopyRegister`) writes to the
/// cursor and advances it; `CopyConstant` and `ArrayGet` target the slot
/// one *below* the cursor -- the slot the immediately preceding
/// `LoadLiteral` staged their index into -- without advancing; a binary
/// instruction retreats the cursor by two, writes its destination
/// there, and advances by one. Any other opcode never appears in
/// expression code.
pub open spec fn spec_fixup_step(instr: Opcode, cursor: Register) -> Result<
    (Opcode, Register),
    CompileError,
> {
    match instr {
        Opcode::LoadLiteral { value, .. } => if cursor == 255 {
            Err(CompileError::TooManyRegisters)
        } else {
            Ok((Opcode::LoadLiteral { dest: cursor, value }, (cursor + 1) as Register))
        },
        Opcode::CopyRegister { copy_from, .. } => if cursor == 255 {
            Err(CompileError::TooManyRegisters)
        } else {
            Ok((Opcode::CopyRegister { dest: cursor, copy_from }, (cursor + 1) as Register))
        },
        Opcode::CopyConstant { .. } => if cursor == 0 {
            Err(CompileError::MalformedExpression)
        } else {
            Ok(
                (
                    Opcode::CopyConstant {
                        dest: (cursor - 1) as Register,
                        const_lookup: (cursor - 1) as Register,
                    },
                    cursor,
                ),
            )
        },
        Opcode::ArrayGet { array_reg, .. } => if cursor == 0 {
            Err(CompileError::MalformedExpression)
        } else {
            Ok(
                (
                    Opcode::ArrayGet {
                        array_reg,
                        index: (cursor - 1) as Register,
                        dest: (cursor - 1) as Register,
                    },
                    cursor,
                ),
            )
        },
        Opcode::Add { .. } => if cursor < 2 {
            Err(CompileError::MalformedExpression)
        } else {
            Ok(
                (
                    Opcode::Add {
                        dest: (cursor - 2) as Register,
                        in1: (cursor - 2) as Register,
                        in2: (cursor - 1) as Register,
                    },
                    (cursor - 1) as Register,
                ),
            )
        },
        Opcode::Subtract { .. } => if cursor < 2 {
            Err(CompileError::MalformedExpression)
        } else {
            Ok(
                (
                    Opcode::Subtract {
                        dest: (cursor - 2) as Register,
                        in1: (cursor - 2) as Register,
                        in2: (cursor - 1) as Register,
                    },
                    (cursor - 1) as Register,
                ),
            )
        },
        Opcode::Multiply { .. } => if cursor < 2 {
            Err(CompileError::MalformedExpression)
        } else {
            Ok(
                (
                    Opcode::Multiply {
                        dest: (cursor - 2) as Register,
                        in1: (cursor - 2) as Register,
                        in2: (cursor - 1) as Register,
                    },
                    (cursor - 1) as Register,
                ),
            )
        },
        Opcode::Divide { .. } => if cursor < 2 {
            Err(CompileError::MalformedExpression)
        } else {
            Ok(
                (
                    Opcode::Divide {
                        dest: (cursor - 2) as Register,
                        in1: (cursor - 2) as Register,
                        in2: (cursor - 1) as Register,
                    },
                    (cursor - 1) as Register,
                ),
            )
        },
        Opcode::Power { .. } => if cursor < 2 {
            Err(CompileError::MalformedExpression)
        } else {
            Ok(
                (
                    Opcode::Power {
                        dest: (cursor - 2) as Register,
                        in1: (cursor - 2) as Register,
                        in2: (cursor - 1) as Register,
                    },
                    (cursor - 1) as Register,
                ),
            )
        },
        _ => Err(CompileError::MalformedExpression),
    }
}

/// The register pass over a whole placeholder sequence, simulating an
/// evaluation stack realized directly in registers: every leaf pushes
/// one value, every binary operator pops two and pushes one.
pub open spec fn spec_fixup(code: Seq<Opcode>, cursor: Register) -> Result<
    Seq<Opcode>,
    CompileError,
>
    decreases code.len(),
{
    if code.len() == 0 {
        Ok(Seq::empty())
    } else {
        match spec_fixup_step(code[0], cursor) {
            Ok(t) => match spec_fixup(code.drop_first(), t.1) {
                Ok(rest) => Ok(seq![t.0] + rest),
                Err(er) => Err(er),
            },
            Err(er) => Err(er),
        }
    }
}

/// What compiling a whole expression into `result_reg` emits, and how
/// it changes the compiler state: the climbing pass builds placeholder
/// code bottom-up, then the register pass assigns real registers with
/// the cursor starting at `result_reg`.
pub open spec fn spec_compile_expression(
    e: Expression,
    result_reg: Register,
    env: CompileEnv,
) -> Result<(Seq<Opcode>, CompileEnv), CompileError>
    decreases e, 2 * e.rest@.len() + 3,
{
    if e.rest@.len() > (usize::MAX - 2) / 2 {
        Err(CompileError::MalformedExpression)
    } else {
        match spec_climb_expr(e, 0, 0, result_reg, env, (2 * e.rest@.len() + 2) as nat) {
            Ok(t) => match spec_fixup(t.0, result_reg) {
                Ok(fixed) => Ok((fixed, t.2)),
                Err(er) => Err(er),
            },
            Err(er) => Err(er),
        }
    }
}

/// Exec mirror of [`spec_fixup_step`].
fn fixup_step(instr: Opcode, cursor: Register) -> (r: Result<(Opcode, Register), CompileError>)
    ensures
        r == spec_fixup_step(instr, cursor),
{
    match instr {
        Opcode::LoadLiteral { value, .. } => if cursor == 255 {
            Err(CompileError::TooManyRegisters)
        } else {
            Ok((Opcode::LoadLiteral { dest: cursor, value }, cursor + 1))
        },
        Opcode::CopyRegister { copy_from, .. } => if cursor == 255 {
            Err(CompileError::TooManyRegisters)
        } else {
            Ok((Opcode::CopyRegister { dest: cursor, copy_from }, cursor + 1))
        },
        Opcode::CopyConstant { .. } => if cursor == 0 {
            Err(CompileError::MalformedExpression)
        } else {
            Ok((Opcode::CopyConstant { dest: cursor - 1, const_lookup: cursor - 1 }, cursor))
        },
        Opcode::ArrayGet { array_reg, .. } => if cursor == 0 {
            Err(CompileError::MalformedExpression)
        } else {
            Ok((Opcode::ArrayGet { array_reg, index: cursor - 1, dest: cursor - 1 }, cursor))
        },
        Opcode::Add { .. } => if cursor < 2 {
            Err(CompileError::MalformedExpression)
        } else {
            Ok((Opcode::Add { dest: cursor - 2, in1: cursor - 2, in2: cursor - 1 }, cursor - 1))
        },
        Opcode::Subtract { .. } => if cursor < 2 {
            Err(CompileError::MalformedExpression)
        } else {
            Ok(
                (
                    Opcode::Subtract { dest: cursor - 2, in1: cursor - 2, in2: cursor - 1 },
                    cursor - 1,
                ),
            )
        },
        Opcode::Multiply { .. } => if cursor < 2 {
            Err(CompileError::MalformedExpression)
        } else {
            Ok(
                (
                    Opcode::Multiply { dest: cursor - 2, in1: cursor - 2, in2: cursor - 1 },
                    cursor - 1,
                ),
            )
        },
        Opcode::Divide { .. } => if cursor < 2 {
            Err(CompileError::MalformedExpression)
        } else {
            Ok(
                (
                    Opcode::Divide { dest: cursor - 2, in1: cursor - 2, in2: cursor - 1 },
                    cursor - 1,
                ),
            )
        },
        Opcode::Power { .. } => if cursor < 2 {
            Err(CompileError::MalformedExpression)
        } else {
            Ok((Opcode::Power { dest: cursor - 2, in1: cursor - 2, in2: cursor - 1 }, cursor - 1))
        },
        _ => Err(CompileError::MalformedExpression),
    }
}

/// The register pass: re-walks placeholder code left to right and
/// assigns real registers, exactly as [`spec_fixup`] describes, with
/// the cursor starting at `base`.
fn assign_registers(code: &Vec<Opcode>, base: Register) -> (r: Result<Vec<Opcode>, CompileError>)
    ensures
        code_view(r) == spec_fixup(code@, base),
{
    let mut out: Vec<Opcode> = Vec::new();
    let mut cursor: Register = base;
    let mut i: usize = 0;
    proof {
        assert(code@.skip(0) =~= code@);
        if spec_fixup(code@, base) is Ok {
            assert(out@ + spec_fixup(code@, base)->Ok_0 =~= spec_fixup(code@, base)->Ok_0);
        }
    }
    while i < code.len()
        invariant
            0 <= i <= code.len(),
            spec_fixup(code@, base) == (match spec_fixup(code@.skip(i as int), cursor) {
                Ok(t) => Ok::<Seq<Opcode>, CompileError>(out@ + t),
                Err(er) => Err::<Seq<Opcode>, CompileError>(er),
            }),
        decreases code.len() - i,
    {
        let ghost rem = code@.skip(i as int);
        proof {
            assert(rem[0] == code@[i as int]);
            assert(rem.drop_first() =~= code@.skip(i + 1));
        }
        match fixup_step(code[i], cursor) {
            Ok(p) => {
                let ghost old_out = out@;
                out.push(p.0);
                cursor = p.1;
                proof {
                    if spec_fixup(code@.skip(i + 1), cursor) is Ok {
                        let t = spec_fixup(code@.skip(i + 1), cursor)->Ok_0;
                        assert(old_out + (seq![p.0] + t) =~= out@ + t);
                    }
                }
            },
            Err(er) => {
                return Err(er);
            },
        }
        i += 1;
    }
    proof {
        assert(code@.skip(code.len() as int) =~= Seq::<Opcode>::empty());
        assert(out@ + Seq::<Opcode>::empty() =~= out@);
    }
    Ok(out)
}

/// The climbing pass, executably: compiles operand `k`, then folds in
/// following operators binding at least as tightly as `min_prec`,
/// exactly as [`spec_climb_expr`] describes. Returns the placeholder
/// code and the index of the first unconsumed operand.
fn climb_expr(
    e: &Expression,
    k: usize,
    min_prec: u32,
    result_reg: Register,
    data: &mut CompileData,
    fuel: usize,
) -> (r: Result<(Vec<Opcode>, usize), CompileError>)
    requires
        k <= e.rest@.len(),
        e.rest@.len() < usize::MAX,
    ensures
        ({
            let s = spec_climb_expr(
                *e,
                k as int,
                min_prec,
                result_reg,
                env_of(*old(data)),
                fuel as nat,
            );
            match s {
                Ok(t) => r matches Ok(p) && p.0@ == t.0 && p.1 as int == t.1 && env_of(
                    *final(data),
                ) == t.2,
                Err(er) => r == Err::<(Vec<Opcode>, usize), CompileError>(er),
            }
        }),
        r matches Ok(p) ==> k + 1 <= p.1 <= e.rest@.len() + 1,
    decreases *e, fuel,
{
    if fuel == 0 {
        return Err(CompileError::MalformedExpression);
    }
    let operand_ref: &Operand = if k == 0 {
        &e.first
    } else {
        &e.rest[k - 1].operand
    };
    proof {
        assert(*operand_ref == spec_operand_at(*e, k as int));
    }
    let mut lhs: Vec<Opcode> = match climb_operand(operand_ref, result_reg, data) {
        Ok(c) => c,
        Err(er) => {
            return Err(er);
        },
    };
    let mut j: usize = k + 1;
    let mut f: usize = fuel - 1;
    let ghost fuel0 = fuel as nat;
    let ghost env0 = env_of(*old(data));
    loop
        invariant
            k <= e.rest@.len() < usize::MAX,
            k + 1 <= j <= e.rest@.len() + 1,
            f < fuel0,
            fuel0 == fuel as nat,
            env0 == env_of(*old(data)),
            spec_climb_expr(*e, k as int, min_prec, result_reg, env0, fuel0)
                == spec_climb_ops(
                *e,
                lhs@,
                j as int,
                min_prec,
                result_reg,
                env_of(*data),
                f as nat,
            ),
        decreases f,
    {
        if f == 0 {
            return Err(CompileError::MalformedExpression);
        }
        if j > e.rest.len() {
            return Ok((lhs, j));
        }
        let op = e.rest[j - 1].op;
        if precedence_of(op) < min_prec {
            return Ok((lhs, j));
        }
        let next_min: u32 = if is_right_assoc(op) {
            precedence_of(op)
        } else {
            precedence_of(op) + 1
        };
        match climb_expr(e, j, next_min, result_reg, data, f - 1) {
            Ok(p) => {
                let mut rhs = p.0;
                let ghost old_lhs = lhs@;
                let ghost rhs_code = rhs@;
                lhs.append(&mut rhs);
                lhs.push(binop_placeholder(op));
                proof {
                    assert(lhs@ =~= old_lhs + rhs_code + seq![spec_binop_placeholder(op)]);
                }
                j = p.1;
                f = f - 1;
            },
            Err(er) => {
                return Err(er);
            },
        }
    }
}

/// Compiles one operand: a leaf through [`compile_value`], a
/// parenthesized subexpression whole, one register above the current
/// one. Exactly [`spec_climb_operand`].
fn climb_operand(o: &Operand, result_reg: Register, data: &mut CompileData) -> (r: Result<
    Vec<Opcode>,
    CompileError,
>)
    ensures
        compile_matches(
            code_view(r),
            env_of(*final(data)),
            spec_climb_operand(*o, result_reg, env_of(*old(data))),
        ),
    decreases *o, 0nat,
{
    match o {
        Operand::Value(v) => compile_value(v, result_reg, data),
        Operand::Subexpression(sub) => {
            if result_reg == 255 {
                Err(CompileError::TooManyRegisters)
            } else {
                compile_expression(&**sub, result_reg + 1, data)
            }
        },
    }
}

/// Compiles a whole expression so that its value ends in `result_reg`,
/// exactly as [`spec_compile_expression`] describes: the climbing pass
/// builds placeholder code bottom-up, then [`assign_registers`] runs
/// the register pass with the cursor starting at `result_reg`.
pub fn compile_expression(
    expression: &Expression,
    result_reg: Register,
    data: &mut CompileData,
) -> (r: Result<Vec<Opcode>, CompileError>)
    ensures
        compile_matches(
            code_view(r),
            env_of(*final(data)),
            spec_compile_expression(*expression, result_reg, env_of(*old(data))),
        ),
    decreases *expression, 2 * expression.rest@.len() + 3,
{
    let n = expression.rest.len();
    if n > (usize::MAX - 2) / 2 {
        return Err(CompileError::MalformedExpression);
    }
    let fuel: usize = 2 * n + 2;
    match climb_expr(expression, 0, 0, result_reg, data, fuel) {
        Ok(p) => assign_registers(&p.0, result_reg),
        Err(er) => Err(er),
    }
}

/// The comparison instruction for one operator, reading the two scratch
/// slots at and above `fur` and writing the result to `fur`.
pub open spec fn spec_comparison_opcode(op: ComparisonOperator, fur: Register) -> Opcode {
    match op {
        ComparisonOperator::BoolEqual => Opcode::ComparisonEqual {
            dest: fur,
            in1: fur,
            in2: (fur + 1) as Register,
        },
        ComparisonOperator::NotEqual => Opcode::ComparisonNotEqual {
            dest: fur,
            in1: fur,
            in2: (fur + 1) as Register,
        },
        ComparisonOperator::GreaterThan => Opcode::ComparisonGreaterThan {
            dest: fur,
            in1: fur,
            in2: (fur + 1) as Register,
        },
        ComparisonOperator::GreaterThanEqual => Opcode::ComparisonGreaterThanEqual {
            dest: fur,
            in1: fur,
            in2: (fur + 1) as Register,
        },
        ComparisonOperator::LessThan => Opcode::ComparisonLessThan {
            dest: fur,
            in1: fur,
            in2: (fur + 1) as Register,
        },
        ComparisonOperator::LessThanEqual => Opcode::ComparisonLessThanEqual {
            dest: fur,
            in1: fur,
            in2: (fur + 1) as Register,
        },
    }
}

/// Exec mirror of [`spec_comparison_opcode`].
fn comparison_opcode(op: ComparisonOperator, fur: Register) -> (r: Opcode)
    requires
        fur < 255,
    ensures
        r == spec_comparison_opcode(op, fur),
{
    match op {
        ComparisonOperator::BoolEqual => Opcode::ComparisonEqual {
            dest: fur,
            in1: fur,
            in2: fur + 1,
        },
        ComparisonOperator::NotEqual => Opcode::ComparisonNotEqual {
            dest: fur,
            in1: fur,
            in2: fur + 1,
        },
        ComparisonOperator::GreaterThan => Opcode::ComparisonGreaterThan {
            dest: fur,
            in1: fur,
            in2: fur + 1,
        },
        ComparisonOperator::GreaterThanEqual => Opcode::ComparisonGreaterThanEqual {
            dest: fur,
            in1: fur,
            in2: fur + 1,
        },
        ComparisonOperator::LessThan => Opcode::ComparisonLessThan {
            dest: fur,
            in1: fur,
            in2: fur + 1,
        },
        ComparisonOperator::LessThanEqual => Opcode::ComparisonLessThanEqual {
            dest: fur,
            in1: fur,
            in2: fur + 1,
        },
    }
}

/// What compiling a condition emits: both operand expressions
/// materialized at the first unused register and the slot above it,
/// then the matching comparison instruction into the first unused
/// register. The cursor is not advanced: the comparison result slot is
/// scratch, reused every time a condition is evaluated.
pub open spec fn spec_compile_comparison(c: Comparison, env: CompileEnv) -> Result<
    (Seq<Opcode>, CompileEnv),
    CompileError,
> {
    if env.first_unused_register == 255 {
        Err(CompileError::TooManyRegisters)
    } else {
        match spec_compile_expression(c.lhs, env.first_unused_register, env) {
            Ok(t1) => match spec_compile_expression(
                c.rhs,
                (env.first_unused_register + 1) as Register,
                t1.1,
            ) {
                Ok(t2) => Ok(
                    (
                        t1.0 + t2.0 + seq![
                            spec_comparison_opcode(c.op, env.first_unused_register),
                        ],
                        t2.1,
                    ),
                ),
                Err(er) => Err(er),
            },
            Err(er) => Err(er),
        }
    }
}

/// Compiles a condition, exactly as [`spec_compile_comparison`]
/// describes.
pub fn compile_comparison(comparison: &Comparison, data: &mut CompileData) -> (r: Result<
    Vec<Opcode>,
    CompileError,
>)
    ensures
        compile_matches(
            code_view(r),
            env_of(*final(data)),
            spec_compile_comparison(*comparison, env_of(*old(data))),
        ),
{
    let fur = data.first_unused_register;
    if fur == 255 {
        return Err(CompileError::TooManyRegisters);
    }
    let mut code = match compile_expression(&comparison.lhs, fur, data) {
        Ok(c) => c,
        Err(er) => {
            return Err(er);
        },
    };
    let mut rhs = match compile_expression(&comparison.rhs, fur + 1, data) {
        Ok(c) => c,
        Err(er) => {
            return Err(er);
        },
    };
    let ghost lhs_code = code@;
    let ghost rhs_code = rhs@;
    code.append(&mut rhs);
    code.push(comparison_opcode(comparison.op, fur));
    proof {
        assert(code@ =~= lhs_code + rhs_code + seq![spec_comparison_opcode(comparison.op, fur)]);
    }
    Ok(code)
}

/// What compiling the argument list of a call emits: each argument
/// value into the next register up.
pub open spec fn spec_compile_args(args: Seq<ValueNode>, reg: Register, env: CompileEnv) -> Result<
    (Seq<Opcode>, CompileEnv),
    CompileError,
>
    decreases args.len(),
{
    if args.len() == 0 {
        Ok((Seq::empty(), env))
    } else {
        match spec_compile_value(args[0], reg, env) {
            Ok(t) => match spec_compile_args(args.drop_first(), (reg + 1) as Register, t.1) {
                Ok(t2) => Ok((t.0 + t2.0, t2.1)),
                Err(er) => Err(er),
            },
            Err(er) => Err(er),
        }
    }
}

/// The copy-out sequence of a call: for every argument that was passed
/// by a bare identifier copy, a reverse copy from the call register
/// back to the identifier's home register, in argument order. This
/// models by-reference argument passing for builtins that write into
/// their argument window.
pub open spec fn spec_copy_back(code: Seq<Opcode>) -> Seq<Opcode>
    decreases code.len(),
{
    if code.len() == 0 {
        Seq::empty()
    } else {
        (match code[0] {
            Opcode::CopyRegister { dest, copy_from } => seq![
                Opcode::CopyRegister { dest: copy_from, copy_from: dest },
            ],
            _ => Seq::empty(),
        }) + spec_copy_back(code.drop_first())
    }
}

/// What compiling a call statement emits: the arguments into the
/// registers from the first unused one up, the `SysCall`, then the
/// copy-out sequence. Naming an unregistered syscall is fatal, as is
/// an argument window that runs past the register file.
pub open spec fn spec_compile_function_call(
    name: String,
    args: Seq<ValueNode>,
    env: CompileEnv,
) -> Result<(Seq<Opcode>, CompileEnv), CompileError> {
    if args.len() > 255 - env.first_unused_register {
        Err(CompileError::TooManyRegisters)
    } else {
        match spec_compile_args(args, env.first_unused_register, env) {
            Ok(t) => match spec_lookup(t.1.syscalls, name@) {
                Some(id) => Ok(
                    (
                        t.0 + seq![
                            Opcode::SysCall { args: env.first_unused_register, function_id: id },
                        ] + spec_copy_back(t.0),
                        t.1,
                    ),
                ),
                None => Err(CompileError::UnknownFunction(name)),
            },
            Err(er) => Err(er),
        }
    }
}

/// Compiles a call statement, exactly as
/// [`spec_compile_function_call`] describes.
pub fn compile_function_call(name: &String, args: &Vec<ValueNode>, data: &mut CompileData) -> (r:
    Result<Vec<Opcode>, CompileError>)
    ensures
        compile_matches(
            code_view(r),
            env_of(*final(data)),
            spec_compile_function_call(*name, args@, env_of(*old(data))),
        ),
{
    let fur = data.first_unused_register;
    if args.len() > (255 - fur) as usize {
        return Err(CompileError::TooManyRegisters);
    }
    let ghost env0 = env_of(*old(data));
    let mut code: Vec<Opcode> = Vec::new();
    let mut i: usize = 0;
    proof {
        assert(args@.skip(0) =~= args@);
        if spec_compile_args(args@, fur, env0) is Ok {
            let t = spec_compile_args(args@, fur, env0)->Ok_0;
            assert(code@ + t.0 =~= t.0);
        }
    }
    while i < args.len()
        invariant
            0 <= i <= args@.len(),
            args@.len() <= 255 - fur,
            fur == env0.first_unused_register,
            env0 == env_of(*old(data)),
            spec_compile_args(args@, fur, env0) == (match spec_compile_args(
                args@.skip(i as int),
                (fur + i) as Register,
                env_of(*data),
            ) {
                Ok(t) => Ok::<(Seq<Opcode>, CompileEnv), CompileError>((code@ + t.0, t.1)),
                Err(er) => Err::<(Seq<Opcode>, CompileEnv), CompileError>(er),
            }),
        decreases args@.len() - i,
    {
        let ghost rem = args@.skip(i as int);
        proof {
            assert(rem[0] == args@[i as int]);
            assert(rem.drop_first() =~= args@.skip(i + 1));
        }
        let reg = fur + (i as u8);
        match compile_value(&args[i], reg, data) {
            Ok(mut piece) => {
                let ghost old_code = code@;
                let ghost piece_code = piece@;
                code.append(&mut piece);
                proof {
                    if spec_compile_args(args@.skip(i + 1), (reg + 1) as Register, env_of(*data))
                        is Ok {
                        let t = spec_compile_args(
                            args@.skip(i + 1),
                            (reg + 1) as Register,
                            env_of(*data),
                        )->Ok_0;
                        assert(old_code + (piece_code + t.0) =~= code@ + t.0);
                    }
                }
            },
            Err(er) => {
                return Err(er);
            },
        }
        i += 1;
    }
    proof {
        assert(args@.skip(args@.len() as int) =~= Seq::<ValueNode>::empty());
        assert(code@ + Seq::<Opcode>::empty() =~= code@);
    }
    let id = match lookup_table(&data.syscall_name_lookup, name) {
        Some(id) => id,
        None => {
            return Err(CompileError::UnknownFunction(name.clone()));
        },
    };
    // Copy back any values the builtin wrote into the argument window.
    let mut back: Vec<Opcode> = Vec::new();
    let mut j: usize = 0;
    proof {
        assert(code@.skip(0) =~= code@);
        assert(Seq::<Opcode>::empty() + spec_copy_back(code@) =~= spec_copy_back(code@));
    }
    while j < code.len()
        invariant
            0 <= j <= code@.len(),
            spec_copy_back(code@) == back@ + spec_copy_back(code@.skip(j as int)),
        decreases code@.len() - j,
    {
        proof {
            assert(code@.skip(j as int)[0] == code@[j as int]);
            assert(code@.skip(j as int).drop_first() =~= code@.skip(j + 1));
        }
        let ghost old_back = back@;
        match code[j] {
            Opcode::CopyRegister { dest, copy_from } => {
                back.push(Opcode::CopyRegister { dest: copy_from, copy_from: dest });
                proof {
                    assert(old_back + (seq![
                        Opcode::CopyRegister { dest: copy_from, copy_from: dest },
                    ] + spec_copy_back(code@.skip(j + 1))) =~= back@ + spec_copy_back(
                        code@.skip(j + 1),
                    ));
                }
            },
            _ => {
                proof {
                    assert(old_back + (Seq::<Opcode>::empty() + spec_copy_back(code@.skip(j + 1)))
                        =~= back@ + spec_copy_back(code@.skip(j + 1)));
                }
            },
        }
        j += 1;
    }
    proof {
        assert(code@.skip(code@.len() as int) =~= Seq::<Opcode>::empty());
        assert(back@ + Seq::<Opcode>::empty() =~= back@);
        assert(back@ == spec_copy_back(code@));
    }
    let ghost arg_code = code@;
    let mut out = code;
    out.push(Opcode::SysCall { args: fur, function_id: id });
    out.append(&mut back);
    proof {
        assert(out@ =~= arg_code + seq![Opcode::SysCall { args: fur, function_id: id }]
            + spec_copy_back(arg_code));
    }
    Ok(out)
}

/// What compiling an assignment emits: the right-hand expression into
/// the first unused register, then either a copy into the bound
/// register of an already-bound name, or -- for an unbound name -- a
/// permanent binding of the name to that register (the value's register
/// becomes the variable's home; the cursor advances).
///
/// Assignment to an array element stages the index one register above
/// the value and writes through the array's bound register. An unbound
/// array name is treated like an unbound scalar name: it is bound to
/// the next register and no store is emitted, so the first later use of
/// that register as an array fails at run time; this mirrors the
/// first-use default path of the original design.
pub open spec fn spec_compile_assignment(
    target: AssignTarget,
    expr: Expression,
    env: CompileEnv,
) -> Result<(Seq<Opcode>, CompileEnv), CompileError> {
    let fur = env.first_unused_register;
    match spec_compile_expression(expr, fur, env) {
        Ok(t) => match target {
            AssignTarget::Ident(name) => match spec_lookup(t.1.vars, name@) {
                Some(home) => Ok(
                    (t.0 + seq![Opcode::CopyRegister { dest: home, copy_from: fur }], t.1),
                ),
                None => if fur == 255 {
                    Err(CompileError::TooManyRegisters)
                } else {
                    Ok(
                        (
                            t.0,
                            CompileEnv {
                                vars: t.1.vars.push((name@, fur)),
                                first_unused_register: (fur + 1) as Register,
                                ..t.1
                            },
                        ),
                    )
                },
            },
            AssignTarget::ArrayElement { array, index } => if fur == 255 {
                Err(CompileError::TooManyRegisters)
            } else {
                match spec_parse_i16(index@) {
                    Some(n) => match spec_lookup(t.1.vars, array@) {
                        Some(home) => Ok(
                            (
                                t.0 + seq![
                                    Opcode::LoadLiteral {
                                        dest: (fur + 1) as Register,
                                        value: n,
                                    },
                                    Opcode::ArrayAssignment {
                                        array_reg: home,
                                        index: (fur + 1) as Register,
                                        value: fur,
                                    },
                                ],
                                t.1,
                            ),
                        ),
                        None => Ok(
                            (
                                t.0 + seq![
                                    Opcode::LoadLiteral {
                                        dest: (fur + 1) as Register,
                                        value: n,
                                    },
                                ],
                                CompileEnv {
                                    vars: t.1.vars.push((array@, fur)),
                                    first_unused_register: (fur + 1) as Register,
                                    ..t.1
                                },
                            ),
                        ),
                    },
                    None => Err(CompileError::InvalidLiteral(index)),
                }
            },
        },
        Err(er) => Err(er),
    }
}

/// Compiles an assignment statement, exactly as
/// [`spec_compile_assignment`] describes.
pub fn compile_assignment(
    target: &AssignTarget,
    expression: &Expression,
    data: &mut CompileData,
) -> (r: Result<Vec<Opcode>, CompileError>)
    ensures
        compile_matches(
            code_view(r),
            env_of(*final(data)),
            spec_compile_assignment(*target, *expression, env_of(*old(data))),
        ),
{
    let fur = data.first_unused_register;
    let mut code = match compile_expression(expression, fur, data) {
        Ok(c) => c,
        Err(er) => {
            return Err(er);
        },
    };
    match target {
        AssignTarget::Ident(name) => match lookup_table(&data.variable_lookup, name) {
            Some(home) => {
                let ghost expr_code = code@;
                code.push(Opcode::CopyRegister { dest: home, copy_from: fur });
                proof {
                    assert(code@ =~= expr_code + seq![
                        Opcode::CopyRegister { dest: home, copy_from: fur },
                    ]);
                }
                Ok(code)
            },
            None => {
                if fur == 255 {
                    return Err(CompileError::TooManyRegisters);
                }
                let ghost vars0 = table_view(data.variable_lookup@);
                data.variable_lookup.push((name.clone(), fur));
                data.first_unused_register = fur + 1;
                proof {
                    assert(table_view(data.variable_lookup@) =~= vars0.push((name@, fur)));
                }
                Ok(code)
            },
        },
        AssignTarget::ArrayElement { array, index } => {
            if fur == 255 {
                return Err(CompileError::TooManyRegisters);
            }
            let n = match parse_i16(index.as_str()) {
                Some(n) => n,
                None => {
                    return Err(CompileError::InvalidLiteral(index.clone()));
                },
            };
            let ghost expr_code = code@;
            code.push(Opcode::LoadLiteral { dest: fur + 1, value: n });
            match lookup_table(&data.variable_lookup, array) {
                Some(home) => {
                    code.push(Opcode::ArrayAssignment {
                        array_reg: home,
                        index: fur + 1,
                        value: fur,
                    });
                    proof {
                        assert(code@ =~= expr_code + seq![
                            Opcode::LoadLiteral { dest: (fur + 1) as Register, value: n },
                            Opcode::ArrayAssignment {
                                array_reg: home,
                                index: (fur + 1) as Register,
                                value: fur,
                            },
                        ]);
                    }
                    Ok(code)
                },
                None => {
                    let ghost vars0 = table_view(data.variable_lookup@);
                    data.variable_lookup.push((array.clone(), fur));
                    data.first_unused_register = fur + 1;
                    proof {
                        assert(table_view(data.variable_lookup@) =~= vars0.push((array@, fur)));
                        assert(code@ =~= expr_code + seq![
                            Opcode::LoadLiteral { dest: (fur + 1) as Register, value: n },
                        ]);
                    }
                    Ok(code)
                },
            }
        },
    }
}

/// What compiling an `if` statement emits: the condition, then a
/// forward `JumpIfFalseRelative` whose offset is the body's instruction
/// count (skip-forward-over-body: the interpreter's own increment
/// supplies the extra step), then the body. The jump tests the
/// register the comparison wrote: the first unused register at
/// condition time, untouched by any binding the body makes.
pub open spec fn spec_compile_if(
    condition: Comparison,
    block: Seq<Statement>,
    env: CompileEnv,
) -> Result<(Seq<Opcode>, CompileEnv), CompileError>
    decreases block, 1nat,
{
    match spec_compile_comparison(condition, env) {
        Ok(t1) => match spec_compile_program(block, t1.1) {
            Ok(t2) => if t2.0.len() > 32767 {
                Err(CompileError::OffsetTooLarge)
            } else {
                Ok(
                    (
                        t1.0 + seq![
                            Opcode::JumpIfFalseRelative {
                                test: env.first_unused_register,
                                offset: t2.0.len() as LiteralInteger,
                            },
                        ] + t2.0,
                        t2.1,
                    ),
                )
            },
            Err(er) => Err(er),
        },
        Err(er) => Err(er),
    }
}

/// What compiling a `while` loop emits: the condition, a forward
/// `JumpIfFalseRelative` sized to skip the body plus a second copy of
/// the condition plus both jumps, the body, the condition again (the
/// condition is re-evaluated each iteration by re-emitting its
/// instructions), and a backward `JumpIfTrueRelative` that returns
/// control to just after the first condition. Both offsets account for
/// the interpreter's unconditional increment, and both jumps test the
/// register the comparison wrote: the first unused register at
/// condition time, untouched by any binding the body makes.
pub open spec fn spec_compile_while_loop(
    condition: Comparison,
    block: Seq<Statement>,
    env: CompileEnv,
) -> Result<(Seq<Opcode>, CompileEnv), CompileError>
    decreases block, 1nat,
{
    match spec_compile_comparison(condition, env) {
        Ok(t1) => match spec_compile_program(block, t1.1) {
            Ok(t2) => if t2.0.len() + t1.0.len() > 32765 {
                Err(CompileError::OffsetTooLarge)
            } else {
                Ok(
                    (
                        t1.0 + seq![
                            Opcode::JumpIfFalseRelative {
                                test: env.first_unused_register,
                                offset: (t2.0.len() + t1.0.len() + 2) as LiteralInteger,
                            },
                        ] + t2.0 + t1.0 + seq![
                            Opcode::JumpIfTrueRelative {
                                test: env.first_unused_register,
                                offset: (-(t2.0.len() + t1.0.len() + 1)) as LiteralInteger,
                            },
                        ],
                        t2.1,
                    ),
                )
            },
            Err(er) => Err(er),
        },
        Err(er) => Err(er),
    }
}

/// What compiling one statement emits, by statement kind.
pub open spec fn spec_compile_statement(s: Statement, env: CompileEnv) -> Result<
    (Seq<Opcode>, CompileEnv),
    CompileError,
>
    decreases s, 2nat,
{
    match s {
        Statement::Assignment { target, expr } => spec_compile_assignment(target, expr, env),
        Statement::FunctionCall { name, args } => spec_compile_function_call(name, args@, env),
        Statement::IfStatement { condition, block } => spec_compile_if(condition, block@, env),
        Statement::WhileLoop { condition, block } => spec_compile_while_loop(
            condition,
            block@,
            env,
        ),
    }
}

/// What compiling a statement sequence emits: each statement's code in
/// order, threading the compiler state left to right.
pub open spec fn spec_compile_program(stmts: Seq<Statement>, env: CompileEnv) -> Result<
    (Seq<Opcode>, CompileEnv),
    CompileError,
>
    decreases stmts, 0nat,
{
    if stmts.len() == 0 {
        Ok((Seq::empty(), env))
    } else {
        match spec_compile_statement(stmts[0], env) {
            Ok(t) => match spec_compile_program(stmts.drop_first(), t.1) {
                Ok(t2) => Ok((t.0 + t2.0, t2.1)),
                Err(er) => Err(er),
            },
            Err(er) => Err(er),
        }
    }
}

/// Appends a copy of every instruction of `src` to `dst`.
fn append_code(dst: &mut Vec<Opcode>, src: &Vec<Opcode>)
    ensures
        final(dst)@ == old(dst)@ + src@,
{
    let mut i: usize = 0;
    while i < src.len()
        invariant
            0 <= i <= src@.len(),
            dst@ == old(dst)@ + src@.take(i as int),
        decreases src@.len() - i,
    {
        dst.push(src[i]);
        proof {
            assert(src@.take(i + 1).drop_last() =~= src@.take(i as int));
            assert(src@.take(i + 1).last() == src@[i as int]);
            assert(old(dst)@ + src@.take(i + 1) =~= (old(dst)@ + src@.take(i as int)).push(
                src@[i as int],
            ));
        }
        i += 1;
    }
    proof {
        assert(src@.take(src@.len() as int) =~= src@);
    }
}

/// Compiles an `if` statement, exactly as [`spec_compile_if`]
/// describes.
pub fn compile_if(condition: &Comparison, block: &Vec<Statement>, data: &mut CompileData) -> (r:
    Result<Vec<Opcode>, CompileError>)
    ensures
        compile_matches(
            code_view(r),
            env_of(*final(data)),
            spec_compile_if(*condition, block@, env_of(*old(data))),
        ),
    decreases block@, 1nat,
{
    let test = data.first_unused_register;
    let cond_code = match compile_comparison(condition, data) {
        Ok(c) => c,
        Err(er) => {
            return Err(er);
        },
    };
    let inner = match compile_program(block, data) {
        Ok(c) => c,
        Err(er) => {
            return Err(er);
        },
    };
    if inner.len() > 32767 {
        return Err(CompileError::OffsetTooLarge);
    }
    let ghost cond_view = cond_code@;
    let ghost inner_view = inner@;
    let mut out = cond_code;
    out.push(Opcode::JumpIfFalseRelative { test, offset: inner.len() as LiteralInteger });
    append_code(&mut out, &inner);
    proof {
        assert(out@ =~= cond_view + seq![
            Opcode::JumpIfFalseRelative {
                test,
                offset: inner_view.len() as LiteralInteger,
            },
        ] + inner_view);
    }
    Ok(out)
}

/// Compiles a `while` loop, exactly as [`spec_compile_while_loop`]
/// describes.
pub fn compile_while_loop(
    condition: &Comparison,
    block: &Vec<Statement>,
    data: &mut CompileData,
) -> (r: Result<Vec<Opcode>, CompileError>)
    ensures
        compile_matches(
            code_view(r),
            env_of(*final(data)),
            spec_compile_while_loop(*condition, block@, env_of(*old(data))),
        ),
    decreases block@, 1nat,
{
    let test = data.first_unused_register;
    let cond_code = match compile_comparison(condition, data) {
        Ok(c) => c,
        Err(er) => {
            return Err(er);
        },
    };
    let inner = match compile_program(block, data) {
        Ok(c) => c,
        Err(er) => {
            return Err(er);
        },
    };
    if inner.len() > 32765 || cond_code.len() > 32765 - inner.len() {
        return Err(CompileError::OffsetTooLarge);
    }
    let offset = (inner.len() + cond_code.len()) as i16;
    let ghost cond_view = cond_code@;
    let ghost inner_view = inner@;
    let mut out: Vec<Opcode> = Vec::new();
    append_code(&mut out, &cond_code);
    out.push(Opcode::JumpIfFalseRelative { test, offset: offset + 2 });
    append_code(&mut out, &inner);
    append_code(&mut out, &cond_code);
    out.push(Opcode::JumpIfTrueRelative { test, offset: -(offset + 1) });
    proof {
        assert(out@ =~= cond_view + seq![
            Opcode::JumpIfFalseRelative {
                test,
                offset: (inner_view.len() + cond_view.len() + 2) as LiteralInteger,
            },
        ] + inner_view + cond_view + seq![
            Opcode::JumpIfTrueRelative {
                test,
                offset: (-(inner_view.len() + cond_view.len() + 1)) as LiteralInteger,
            },
        ]);
    }
    Ok(out)
}

/// Compiles one statement, dispatching on its kind, exactly as
/// [`spec_compile_statement`] describes.
pub fn compile_statement(statement: &Statement, data: &mut CompileData) -> (r: Result<
    Vec<Opcode>,
    CompileError,
>)
    ensures
        compile_matches(
            code_view(r),
            env_of(*final(data)),
            spec_compile_statement(*statement, env_of(*old(data))),
        ),
    decreases *statement, 2nat,
{
    match statement {
        Statement::Assignment { target, expr } => compile_assignment(target, expr, data),
        Statement::FunctionCall { name, args } => compile_function_call(name, args, data),
        Statement::IfStatement { condition, block } => compile_if(condition, block, data),
        Statement::WhileLoop { condition, block } => compile_while_loop(condition, block, data),
    }
}

/// Compiles a whole statement sequence, exactly as
/// [`spec_compile_program`] describes: each statement's code in order,
/// threading the compiler state left to right.
pub fn compile_program(program: &Vec<Statement>, data: &mut CompileData) -> (r: Result<
    Vec<Opcode>,
    CompileError,
>)
    ensures
        compile_matches(
            code_view(r),
            env_of(*final(data)),
            spec_compile_program(program@, env_of(*old(data))),
        ),
    decreases program@, 0nat,
{
    let ghost env0 = env_of(*old(data));
    let mut out: Vec<Opcode> = Vec::new();
    let mut i: usize = 0;
    proof {
        assert(program@.skip(0) =~= program@);
        if spec_compile_program(program@, env0) is Ok {
            let t = spec_compile_program(program@, env0)->Ok_0;
            assert(out@ + t.0 =~= t.0);
        }
    }
    while i < program.len()
        invariant
            0 <= i <= program@.len(),
            env0 == env_of(*old(data)),
            spec_compile_program(program@, env0) == (match spec_compile_program(
                program@.skip(i as int),
                env_of(*data),
            ) {
                Ok(t) => Ok::<(Seq<Opcode>, CompileEnv), CompileError>((out@ + t.0, t.1)),
                Err(er) => Err::<(Seq<Opcode>, CompileEnv), CompileError>(er),
            }),
        decreases program@.len() - i,
    {
        let ghost rem = program@.skip(i as int);
        proof {
            assert(rem[0] == program@[i as int]);
            assert(rem.drop_first() =~= program@.skip(i + 1));
        }
        match compile_statement(&program[i], data) {
            Ok(piece) => {
                let ghost old_out = out@;
                let ghost piece_view = piece@;
                append_code(&mut out, &piece);
                proof {
                    if spec_compile_program(program@.skip(i + 1), env_of(*data)) is Ok {
                        let t = spec_compile_program(program@.skip(i + 1), env_of(*data))->Ok_0;
                        assert(old_out + (piece_view + t.0) =~= out@ + t.0);
                    }
                }
            },
            Err(er) => {
                return Err(er);
            },
        }
        i += 1;
    }
    proof {
        assert(program@.skip(program@.len() as int) =~= Seq::<Statement>::empty());
        assert(out@ + Seq::<Opcode>::empty() =~= out@);
    }
    Ok(out)
}

/// Law: round-trip determinism. Compilation is a function of the
/// statement sequence and the starting compiler state alone, so
/// compiling the same source twice from equal states yields identical
/// instruction sequences, identical bindings and an identical constant
/// pool. The contract of [`compile_program`] pins its result and its
/// final state to [`spec_compile_program`], which this law equates
/// across the two runs.
pub proof fn lemma_compile_program_deterministic(
    p1: Seq<Statement>,
    p2: Seq<Statement>,
    e1: CompileEnv,
    e2: CompileEnv,
)
    requires
        p1 == p2,
        e1 == e2,
    ensures
        spec_compile_program(p1, e1) == spec_compile_program(p2, e2),
{
}

} // verus!
