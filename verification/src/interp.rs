//! The interpreter loop: executes an instruction sequence against VM
//! state until the instruction pointer runs off the end of the
//! sequence, or a fatal runtime error stops the run.
//!
//! The instruction pointer is signed: jumps may move it backward. Each
//! cycle fetches the instruction at the pointer, applies its effect
//! (jumps adjust the pointer by their offset), then unconditionally
//! increments the pointer by one -- so a jump's effective displacement
//! is `offset + 1` instructions from the jump's own position.

use vstd::prelude::*;

use crate::compile::CompileData;
use crate::compile::env_of;
use crate::instr::Opcode;
use crate::instr::Register;
use crate::syscall::SYSCALL_LEN;
use crate::syscall::SYSCALL_PRINT;
use crate::syscall::SYSCALL_PRINTLN;
use crate::value::AbstractValue;
use crate::value::Cmp;
use crate::value::Value;
use crate::value::cmp_values;
use crate::value::deep_copy;
use crate::value::deep_eq;
use crate::value::lemma_models;
use crate::value::lemma_models_index;
use crate::value::lemma_models_len;
use crate::value::lemma_models_push;
use crate::value::lemma_models_update;
use crate::value::models;
use crate::value::render_value;
use crate::value::spec_cmp;
use crate::value::spec_render;

verus! {

broadcast use lemma_models, lemma_models_len, lemma_models_index, lemma_models_push, lemma_models_update;

/// A fatal runtime error. Execution halts on the first one; there is
/// no recovery and no partial result beyond the output already
/// written.
#[derive(Copy, Clone, Debug, PartialEq, Eq, Structural)]
pub enum VmError {
    /// A wrong value tag reached an arithmetic, comparison, jump-test,
    /// index, constant-lookup or `Len` operation.
    TypeMismatch,
    /// A `SysCall` carried an id the registry does not know.
    UnknownSyscall,
    /// A constant-pool lookup fell outside the pool.
    ConstantNotFound,
    /// An array access fell outside the array's current length.
    IndexOutOfBounds,
    /// Division by zero.
    DivisionByZero,
    /// An arithmetic result fell outside the 64-bit number range.
    NumericOverflow,
    /// A power was raised to a negative exponent.
    NegativeExponent,
    /// An argument window ran past the end of the register file.
    RegisterOutOfRange,
    /// A jump moved the instruction pointer below zero.
    JumpOutOfRange,
    /// The step budget handed to [`execute_program`] ran out.
    StepLimitExceeded,
}

/// One run's VM state: the read-only constant pool snapshot, the
/// 256-slot register file, and the output written by the print
/// builtins so far. Created once per execution, discarded at program
/// end; nothing persists across runs.
pub struct VMState {
    pub constants: Vec<Value>,
    pub registers: Vec<Value>,
    pub output: Vec<char>,
}

/// The mathematical abstraction of a [`VMState`].
#[verifier::ext_equal]
pub ghost struct VmView {
    pub constants: Seq<AbstractValue>,
    pub registers: Seq<AbstractValue>,
    pub output: Seq<char>,
}

/// The abstraction of a VM state.
pub open spec fn view_of(s: VMState) -> VmView {
    VmView {
        constants: models(s.constants@),
        registers: models(s.registers@),
        output: s.output@,
    }
}

/// Well-formedness: the register file has exactly 256 slots.
pub open spec fn vm_wf(s: VMState) -> bool {
    s.registers@.len() == 256
}

/// The register file at the start of a run: numeric zero in every
/// slot.
pub open spec fn zero_registers() -> Seq<AbstractValue> {
    Seq::new(256, |i: int| AbstractValue::Number(0))
}

/// Deep-copies a value sequence, element by element.
fn copy_values(src: &Vec<Value>) -> (r: Vec<Value>)
    ensures
        models(r@) == models(src@),
{
    let mut out: Vec<Value> = Vec::new();
    let mut i: usize = 0;
    while i < src.len()
        invariant
            0 <= i <= src@.len(),
            out@.len() == i,
            forall|j: int| 0 <= j < i ==> #[trigger] out@[j].model() == src@[j].model(),
        decreases src@.len() - i,
    {
        let c = deep_copy(&src[i]);
        out.push(c);
        i += 1;
    }
    proof {
        lemma_models(out@);
        lemma_models(src@);
        assert(models(out@) =~= models(src@));
    }
    out
}

/// Builds the VM state for one run: a snapshot of the compiler's
/// constant pool, a zero-initialized register file, empty output.
pub fn build_state(compile_data: &CompileData) -> (s: VMState)
    ensures
        vm_wf(s),
        view_of(s) == (VmView {
            constants: env_of(*compile_data).constants,
            registers: zero_registers(),
            output: Seq::empty(),
        }),
{
    let constants = copy_values(&compile_data.constant_table);
    let mut registers: Vec<Value> = Vec::new();
    let mut i: usize = 0;
    while i < 256
        invariant
            0 <= i <= 256,
            registers@.len() == i,
            forall|j: int| 0 <= j < i ==> registers@[j] == Value::Number(0),
        decreases 256 - i,
    {
        registers.push(Value::Number(0));
        i += 1;
    }
    let s = VMState { constants, registers, output: Vec::new() };
    proof {
        lemma_models(s.registers@);
        assert(models(s.registers@) =~= zero_registers());
        assert(view_of(s) =~= (VmView {
            constants: env_of(*compile_data).constants,
            registers: zero_registers(),
            output: Seq::empty(),
        }));
    }
    s
}

/// The state after writing `v` to register `r`.
pub open spec fn set_reg(s: VmView, r: Register, v: AbstractValue) -> VmView {
    VmView { registers: s.registers.update(r as int, v), ..s }
}

/// What `Add` yields. It is overloaded: if both operands are arrays
/// the result is their concatenation; if exactly one is an array the
/// result is that array's elements with the other value appended; two
/// numbers add (overflow is fatal). Anything else is a fatal type
/// error. The result array is always a fresh value: it aliases
/// neither operand.
pub open spec fn spec_arith_add(a: AbstractValue, b: AbstractValue) -> Result<
    AbstractValue,
    VmError,
> {
    match a {
        AbstractValue::Array(xs) => match b {
            AbstractValue::Array(ys) => Ok(AbstractValue::Array(xs + ys)),
            other => Ok(AbstractValue::Array(xs.push(other))),
        },
        _ => match b {
            AbstractValue::Array(ys) => Ok(AbstractValue::Array(ys.push(a))),
            _ => match (a, b) {
                (AbstractValue::Number(x), AbstractValue::Number(y)) => if x + y > i64::MAX || x
                    + y < i64::MIN {
                    Err(VmError::NumericOverflow)
                } else {
                    Ok(AbstractValue::Number(x + y))
                },
                _ => Err(VmError::TypeMismatch),
            },
        },
    }
}

/// What `Subtract` yields: numbers only, overflow fatal.
pub open spec fn spec_arith_sub(a: AbstractValue, b: AbstractValue) -> Result<
    AbstractValue,
    VmError,
> {
    match a {
        AbstractValue::Number(x) => match b {
            AbstractValue::Number(y) => if x - y > i64::MAX || x - y < i64::MIN {
                Err(VmError::NumericOverflow)
            } else {
                Ok(AbstractValue::Number(x - y))
            },
            _ => Err(VmError::TypeMismatch),
        },
        _ => Err(VmError::TypeMismatch),
    }
}

/// What `Multiply` yields: numbers only, overflow fatal.
pub open spec fn spec_arith_mul(a: AbstractValue, b: AbstractValue) -> Result<
    AbstractValue,
    VmError,
> {
    match a {
        AbstractValue::Number(x) => match b {
            AbstractValue::Number(y) => if x * y > i64::MAX || x * y < i64::MIN {
                Err(VmError::NumericOverflow)
            } else {
                Ok(AbstractValue::Number(x * y))
            },
            _ => Err(VmError::TypeMismatch),
        },
        _ => Err(VmError::TypeMismatch),
    }
}

/// Truncated (toward zero) integer division of `x` by a nonzero `d`.
pub open spec fn spec_trunc_div(x: int, d: int) -> int {
    if x == 0 {
        0
    } else if x > 0 && d > 0 {
        x / d
    } else if x < 0 && d < 0 {
        (x * -1) / (d * -1)
    } else if x < 0 {
        ((x * -1) / d) * -1
    } else {
        (x / (d * -1)) * -1
    }
}

/// What `Divide` yields: numbers only; division by zero is fatal, and
/// so is the one overflowing quotient (the minimum number divided by
/// minus one).
pub open spec fn spec_arith_div(a: AbstractValue, b: AbstractValue) -> Result<
    AbstractValue,
    VmError,
> {
    match a {
        AbstractValue::Number(x) => match b {
            AbstractValue::Number(y) => if y == 0 {
                Err(VmError::DivisionByZero)
            } else if spec_trunc_div(x, y) > i64::MAX || spec_trunc_div(x, y) < i64::MIN {
                Err(VmError::NumericOverflow)
            } else {
                Ok(AbstractValue::Number(spec_trunc_div(x, y)))
            },
            _ => Err(VmError::TypeMismatch),
        },
        _ => Err(VmError::TypeMismatch),
    }
}

/// Iterated multiplication with a 64-bit range check at every step:
/// `None` as soon as an intermediate product leaves the range.
pub open spec fn spec_checked_pow(base: int, e: nat) -> Option<int>
    decreases e,
{
    if e == 0 {
        Some(1)
    } else {
        match spec_checked_pow(base, (e - 1) as nat) {
            Some(p) => if p * base > i64::MAX || p * base < i64::MIN {
                None
            } else {
                Some(p * base)
            },
            None => None,
        }
    }
}

/// What `Power` yields: numbers only; a negative exponent is fatal,
/// and so is an overflowing result.
pub open spec fn spec_arith_pow(a: AbstractValue, b: AbstractValue) -> Result<
    AbstractValue,
    VmError,
> {
    match a {
        AbstractValue::Number(x) => match b {
            AbstractValue::Number(y) => if y < 0 {
                Err(VmError::NegativeExponent)
            } else {
                match spec_checked_pow(x, y as nat) {
                    Some(r) => Ok(AbstractValue::Number(r)),
                    None => Err(VmError::NumericOverflow),
                }
            },
            _ => Err(VmError::TypeMismatch),
        },
        _ => Err(VmError::TypeMismatch),
    }
}

/// What a comparison opcode writes: equality is total and structural
/// (different tags are simply unequal); the four ordering comparisons
/// follow [`spec_cmp`], and comparing values of different tags through
/// them is a fatal type error.
pub open spec fn spec_compare(
    a: AbstractValue,
    b: AbstractValue,
    want_less: bool,
    want_equal: bool,
    want_greater: bool,
) -> Result<AbstractValue, VmError> {
    match spec_cmp(a, b) {
        Some(c) => Ok(
            AbstractValue::Boolean(
                match c {
                    Cmp::Less => want_less,
                    Cmp::Equal => want_equal,
                    Cmp::Greater => want_greater,
                },
            ),
        ),
        None => Err(VmError::TypeMismatch),
    }
}

/// What one `SysCall` does, by builtin id: `Print` and `Println`
/// append the display form of the value in the argument register to
/// the output (`Println` adds a newline); `Len` reads the array one
/// register above the argument register and writes its element count
/// into the argument register as a number. An unknown id is fatal.
pub open spec fn spec_syscall(s: VmView, args: Register, function_id: int) -> Result<
    (VmView, int),
    VmError,
> {
    if function_id == SYSCALL_PRINT {
        Ok((VmView { output: s.output + spec_render(s.registers[args as int]), ..s }, 0))
    } else if function_id == SYSCALL_PRINTLN {
        Ok(
            (
                VmView {
                    output: s.output + spec_render(s.registers[args as int]) + seq!['\n'],
                    ..s
                },
                0,
            ),
        )
    } else if function_id == SYSCALL_LEN {
        if args == 255 {
            Err(VmError::RegisterOutOfRange)
        } else {
            match s.registers[args + 1] {
                AbstractValue::Array(items) => if items.len() > i64::MAX {
                    Err(VmError::NumericOverflow)
                } else {
                    Ok((set_reg(s, args, AbstractValue::Number(items.len() as int)), 0))
                },
                _ => Err(VmError::TypeMismatch),
            }
        }
    } else {
        Err(VmError::UnknownSyscall)
    }
}

/// The effect of one instruction on the VM state: either the next
/// state together with the pointer adjustment the instruction asks for
/// (zero for everything but a taken jump), or the fatal error that
/// halts the run. The interpreter adds its unconditional `+ 1` on top
/// of the returned adjustment.
pub open spec fn spec_step(s: VmView, instr: Opcode) -> Result<(VmView, int), VmError> {
    match instr {
        Opcode::Add { dest, in1, in2 } => match spec_arith_add(
            s.registers[in1 as int],
            s.registers[in2 as int],
        ) {
            Ok(v) => Ok((set_reg(s, dest, v), 0)),
            Err(e) => Err(e),
        },
        Opcode::Subtract { dest, in1, in2 } => match spec_arith_sub(
            s.registers[in1 as int],
            s.registers[in2 as int],
        ) {
            Ok(v) => Ok((set_reg(s, dest, v), 0)),
            Err(e) => Err(e),
        },
        Opcode::Multiply { dest, in1, in2 } => match spec_arith_mul(
            s.registers[in1 as int],
            s.registers[in2 as int],
        ) {
            Ok(v) => Ok((set_reg(s, dest, v), 0)),
            Err(e) => Err(e),
        },
        Opcode::Divide { dest, in1, in2 } => match spec_arith_div(
            s.registers[in1 as int],
            s.registers[in2 as int],
        ) {
            Ok(v) => Ok((set_reg(s, dest, v), 0)),
            Err(e) => Err(e),
        },
        Opcode::Power { dest, in1, in2 } => match spec_arith_pow(
            s.registers[in1 as int],
            s.registers[in2 as int],
        ) {
            Ok(v) => Ok((set_reg(s, dest, v), 0)),
            Err(e) => Err(e),
        },
        Opcode::LoadLiteral { dest, value } => Ok(
            (set_reg(s, dest, AbstractValue::Number(value as int)), 0),
        ),
        Opcode::CopyRegister { dest, copy_from } => Ok(
            (set_reg(s, dest, s.registers[copy_from as int]), 0),
        ),
        Opcode::SysCall { args, function_id } => spec_syscall(s, args, function_id as int),
        Opcode::ComparisonEqual { dest, in1, in2 } => Ok(
            (
                set_reg(
                    s,
                    dest,
                    AbstractValue::Boolean(s.registers[in1 as int] == s.registers[in2 as int]),
                ),
                0,
            ),
        ),
        Opcode::ComparisonNotEqual { dest, in1, in2 } => Ok(
            (
                set_reg(
                    s,
                    dest,
                    AbstractValue::Boolean(s.registers[in1 as int] != s.registers[in2 as int]),
                ),
                0,
            ),
        ),
        Opcode::ComparisonGreaterThan { dest, in1, in2 } => match spec_compare(
            s.registers[in1 as int],
            s.registers[in2 as int],
            false,
            false,
            true,
        ) {
            Ok(v) => Ok((set_reg(s, dest, v), 0)),
            Err(e) => Err(e),
        },
        Opcode::ComparisonGreaterThanEqual { dest, in1, in2 } => match spec_compare(
            s.registers[in1 as int],
            s.registers[in2 as int],
            false,
            true,
            true,
        ) {
            Ok(v) => Ok((set_reg(s, dest, v), 0)),
            Err(e) => Err(e),
        },
        Opcode::ComparisonLessThan { dest, in1, in2 } => match spec_compare(
            s.registers[in1 as int],
            s.registers[in2 as int],
            true,
            false,
            false,
        ) {
            Ok(v) => Ok((set_reg(s, dest, v), 0)),
            Err(e) => Err(e),
        },
        Opcode::ComparisonLessThanEqual { dest, in1, in2 } => match spec_compare(
            s.registers[in1 as int],
            s.registers[in2 as int],
            true,
            true,
            false,
        ) {
            Ok(v) => Ok((set_reg(s, dest, v), 0)),
            Err(e) => Err(e),
        },
        Opcode::JumpIfFalseRelative { test, offset } => match s.registers[test as int] {
            AbstractValue::Boolean(b) => Ok(
                (
                    s,
                    if !b {
                        offset as int
                    } else {
                        0
                    },
                ),
            ),
            _ => Err(VmError::TypeMismatch),
        },
        Opcode::JumpIfTrueRelative { test, offset } => match s.registers[test as int] {
            AbstractValue::Boolean(b) => Ok(
                (
                    s,
                    if b {
                        offset as int
                    } else {
                        0
                    },
                ),
            ),
            _ => Err(VmError::TypeMismatch),
        },
        Opcode::CopyConstant { dest, const_lookup } => match s.registers[const_lookup as int] {
            AbstractValue::Number(i) => if 0 <= i < s.constants.len() {
                Ok((set_reg(s, dest, s.constants[i]), 0))
            } else {
                Err(VmError::ConstantNotFound)
            },
            _ => Err(VmError::TypeMismatch),
        },
        Opcode::ArrayAssignment { array_reg, index, value } => match s.registers[array_reg as int] {
            AbstractValue::Array(items) => match s.registers[index as int] {
                AbstractValue::Number(i) => if 0 <= i < items.len() {
                    Ok(
                        (
                            set_reg(
                                s,
                                array_reg,
                                AbstractValue::Array(items.update(i, s.registers[value as int])),
                            ),
                            0,
                        ),
                    )
                } else {
                    Err(VmError::IndexOutOfBounds)
                },
                _ => Err(VmError::TypeMismatch),
            },
            _ => Err(VmError::TypeMismatch),
        },
        Opcode::ArrayGet { array_reg, index, dest } => match s.registers[array_reg as int] {
            AbstractValue::Array(items) => match s.registers[index as int] {
                AbstractValue::Number(i) => if 0 <= i < items.len() {
                    Ok((set_reg(s, dest, items[i]), 0))
                } else {
                    Err(VmError::IndexOutOfBounds)
                },
                _ => Err(VmError::TypeMismatch),
            },
            _ => Err(VmError::TypeMismatch),
        },
    }
}

/// Relates an arithmetic helper's result to its spec-level outcome.
pub open spec fn arith_matches(r: Result<Value, VmError>, s: Result<AbstractValue, VmError>) -> bool {
    match s {
        Ok(av) => r matches Ok(v) && v.model() == av,
        Err(e) => r matches Err(e2) && e2 == e,
    }
}

/// Executes the `Add` overload, exactly as [`spec_arith_add`]
/// describes.
fn add_values(a: &Value, b: &Value) -> (r: Result<Value, VmError>)
    ensures
        arith_matches(r, spec_arith_add(a.model(), b.model())),
{
    match (a, b) {
        (Value::Number(x), Value::Number(y)) => match x.checked_add(*y) {
            Some(v) => Ok(Value::Number(v)),
            None => Err(VmError::NumericOverflow),
        },
        (Value::Array(xs), Value::Array(ys)) => {
            let mut joined = copy_values(xs);
            let mut tail = copy_values(ys);
            joined.append(&mut tail);
            proof {
                lemma_models(joined@);
                lemma_models(xs@);
                lemma_models(ys@);
                assert(models(joined@) =~= models(xs@) + models(ys@));
            }
            Ok(Value::Array(joined))
        },
        (Value::Array(xs), other) => {
            let mut joined = copy_values(xs);
            let pushed = deep_copy(other);
            joined.push(pushed);
            proof {
                assert(models(joined@) == models(xs@).push(other.model()));
            }
            Ok(Value::Array(joined))
        },
        (other, Value::Array(ys)) => {
            let mut joined = copy_values(ys);
            let pushed = deep_copy(other);
            joined.push(pushed);
            proof {
                assert(models(joined@) == models(ys@).push(other.model()));
            }
            Ok(Value::Array(joined))
        },
        _ => Err(VmError::TypeMismatch),
    }
}

/// Multiplication chain for `Power`, with the three constant bases
/// short-circuited so that huge exponents cannot stall the loop.
fn power_number(x: i64, y: i64) -> (r: Result<i64, VmError>)
    requires
        y >= 0,
    ensures
        ({
            match spec_checked_pow(x as int, y as nat) {
                Some(v) => r matches Ok(o) && o as int == v,
                None => r matches Err(e) && e == VmError::NumericOverflow,
            }
        }),
{
    if x == 0 {
        if y == 0 {
            assert(spec_checked_pow(0, 0) == Some(1int));
            Ok(1)
        } else {
            proof {
                lemma_pow_zero(y as nat);
            }
            Ok(0)
        }
    } else if x == 1 {
        proof {
            lemma_pow_one(y as nat);
        }
        Ok(1)
    } else if x == -1 {
        proof {
            lemma_pow_neg_one(y as nat);
        }
        if y % 2 == 0 {
            Ok(1)
        } else {
            Ok(-1)
        }
    } else {
        let mut acc: i64 = 1;
        let mut k: i64 = 0;
        assert(spec_checked_pow(x as int, 0) == Some(1int));
        while k < y
            invariant
                0 <= k <= y,
                spec_checked_pow(x as int, k as nat) == Some(acc as int),
            decreases y - k,
        {
            match acc.checked_mul(x) {
                Some(a) => {
                    acc = a;
                    k = k + 1;
                },
                None => {
                    proof {
                        lemma_pow_none_mono(x as int, (k + 1) as nat, y as nat);
                    }
                    return Err(VmError::NumericOverflow);
                },
            }
        }
        Ok(acc)
    }
}

/// Zero to any positive power is zero.
proof fn lemma_pow_zero(e: nat)
    requires
        e >= 1,
    ensures
        spec_checked_pow(0, e) == Some(0int),
    decreases e,
{
    if e > 1 {
        lemma_pow_zero((e - 1) as nat);
    } else {
        assert(spec_checked_pow(0, 0) == Some(1int));
    }
}

/// One to any power is one.
proof fn lemma_pow_one(e: nat)
    ensures
        spec_checked_pow(1, e) == Some(1int),
    decreases e,
{
    if e > 0 {
        lemma_pow_one((e - 1) as nat);
    }
}

/// Minus one to any power is one or minus one, by parity.
proof fn lemma_pow_neg_one(e: nat)
    ensures
        spec_checked_pow(-1, e) == Some(
            if e % 2 == 0 {
                1int
            } else {
                -1int
            },
        ),
    decreases e,
{
    if e > 0 {
        lemma_pow_neg_one((e - 1) as nat);
    }
}

/// Once the multiplication chain overflows it stays overflowed.
proof fn lemma_pow_none_mono(base: int, k: nat, e: nat)
    requires
        k <= e,
        spec_checked_pow(base, k) is None,
    ensures
        spec_checked_pow(base, e) is None,
    decreases e,
{
    if e > k {
        lemma_pow_none_mono(base, k, (e - 1) as nat);
    }
}

/// Executes one instruction against the VM state, exactly as
/// [`spec_step`] describes. Returns the instruction's pointer
/// adjustment; the run loop adds its unconditional increment. On an
/// error the state is untouched.
pub fn step(state: &mut VMState, instr: Opcode) -> (r: Result<i16, VmError>)
    requires
        vm_wf(*old(state)),
    ensures
        vm_wf(*final(state)),
        ({
            let s = spec_step(view_of(*old(state)), instr);
            match r {
                Ok(d) => s matches Ok(t) && view_of(*final(state)) == t.0 && d as int == t.1,
                Err(e) => s matches Err(e2) && e == e2 && view_of(*final(state)) == view_of(
                    *old(state),
                ),
            }
        }),
{
    match instr {
        Opcode::Add { dest, in1, in2 } => {
            let v = match add_values(&state.registers[in1 as usize], &state.registers[in2 as usize]) {
                Ok(v) => v,
                Err(e) => {
                    return Err(e);
                },
            };
            state.registers.set(dest as usize, v);
            Ok(0)
        },
        Opcode::Subtract { dest, in1, in2 } => {
            let v = match (&state.registers[in1 as usize], &state.registers[in2 as usize]) {
                (Value::Number(x), Value::Number(y)) => match x.checked_sub(*y) {
                    Some(v) => Value::Number(v),
                    None => {
                        return Err(VmError::NumericOverflow);
                    },
                },
                _ => {
                    return Err(VmError::TypeMismatch);
                },
            };
            state.registers.set(dest as usize, v);
            Ok(0)
        },
        Opcode::Multiply { dest, in1, in2 } => {
            let v = match (&state.registers[in1 as usize], &state.registers[in2 as usize]) {
                (Value::Number(x), Value::Number(y)) => match x.checked_mul(*y) {
                    Some(v) => Value::Number(v),
                    None => {
                        return Err(VmError::NumericOverflow);
                    },
                },
                _ => {
                    return Err(VmError::TypeMismatch);
                },
            };
            state.registers.set(dest as usize, v);
            Ok(0)
        },
        Opcode::Divide { dest, in1, in2 } => {
            let v = match (&state.registers[in1 as usize], &state.registers[in2 as usize]) {
                (Value::Number(x), Value::Number(y)) => {
                    if *y == 0 {
                        return Err(VmError::DivisionByZero);
                    }
                    match x.checked_div(*y) {
                        Some(v) => Value::Number(v),
                        None => {
                            return Err(VmError::NumericOverflow);
                        },
                    }
                },
                _ => {
                    return Err(VmError::TypeMismatch);
                },
            };
            state.registers.set(dest as usize, v);
            Ok(0)
        },
        Opcode::Power { dest, in1, in2 } => {
            let v = match (&state.registers[in1 as usize], &state.registers[in2 as usize]) {
                (Value::Number(x), Value::Number(y)) => {
                    if *y < 0 {
                        return Err(VmError::NegativeExponent);
                    }
                    match power_number(*x, *y) {
                        Ok(v) => Value::Number(v),
                        Err(e) => {
                            return Err(e);
                        },
                    }
                },
                _ => {
                    return Err(VmError::TypeMismatch);
                },
            };
            state.registers.set(dest as usize, v);
            Ok(0)
        },
        Opcode::LoadLiteral { dest, value } => {
            state.registers.set(dest as usize, Value::Number(value as i64));
            Ok(0)
        },
        Opcode::CopyRegister { dest, copy_from } => {
            let v = deep_copy(&state.registers[copy_from as usize]);
            state.registers.set(dest as usize, v);
            Ok(0)
        },
        Opcode::SysCall { args, function_id } => {
            if function_id == SYSCALL_PRINT {
                let mut chars = render_value(&state.registers[args as usize]);
                let ghost rendered = chars@;
                state.output.append(&mut chars);
                proof {
                    assert(view_of(*state) =~= (VmView {
                        output: view_of(*old(state)).output + rendered,
                        ..view_of(*old(state))
                    }));
                }
                Ok(0)
            } else if function_id == SYSCALL_PRINTLN {
                let mut chars = render_value(&state.registers[args as usize]);
                let ghost rendered = chars@;
                state.output.append(&mut chars);
                state.output.push('\n');
                proof {
                    assert(view_of(*state) =~= (VmView {
                        output: view_of(*old(state)).output + rendered + seq!['\n'],
                        ..view_of(*old(state))
                    }));
                }
                Ok(0)
            } else if function_id == SYSCALL_LEN {
                if args == 255 {
                    return Err(VmError::RegisterOutOfRange);
                }
                let arr_len: usize = match &state.registers[(args as usize) + 1] {
                    Value::Array(items) => {
                        proof {
                            lemma_models(items@);
                        }
                        items.len()
                    },
                    _ => {
                        return Err(VmError::TypeMismatch);
                    },
                };
                if (arr_len as u64) > (i64::MAX as u64) {
                    return Err(VmError::NumericOverflow);
                }
                state.registers.set(args as usize, Value::Number(arr_len as i64));
                Ok(0)
            } else {
                Err(VmError::UnknownSyscall)
            }
        },
        Opcode::ComparisonEqual { dest, in1, in2 } => {
            let b = deep_eq(&state.registers[in1 as usize], &state.registers[in2 as usize]);
            state.registers.set(dest as usize, Value::Boolean(b));
            Ok(0)
        },
        Opcode::ComparisonNotEqual { dest, in1, in2 } => {
            let b = deep_eq(&state.registers[in1 as usize], &state.registers[in2 as usize]);
            state.registers.set(dest as usize, Value::Boolean(!b));
            Ok(0)
        },
        Opcode::ComparisonGreaterThan { dest, in1, in2 } => {
            let v = match cmp_values(&state.registers[in1 as usize], &state.registers[in2 as usize]) {
                Some(c) => Value::Boolean(matches!(c, Cmp::Greater)),
                None => {
                    return Err(VmError::TypeMismatch);
                },
            };
            state.registers.set(dest as usize, v);
            Ok(0)
        },
        Opcode::ComparisonGreaterThanEqual { dest, in1, in2 } => {
            let v = match cmp_values(&state.registers[in1 as usize], &state.registers[in2 as usize]) {
                Some(c) => Value::Boolean(!matches!(c, Cmp::Less)),
                None => {
                    return Err(VmError::TypeMismatch);
                },
            };
            state.registers.set(dest as usize, v);
            Ok(0)
        },
        Opcode::ComparisonLessThan { dest, in1, in2 } => {
            let v = match cmp_values(&state.registers[in1 as usize], &state.registers[in2 as usize]) {
                Some(c) => Value::Boolean(matches!(c, Cmp::Less)),
                None => {
                    return Err(VmError::TypeMismatch);
                },
            };
            state.registers.set(dest as usize, v);
            Ok(0)
        },
        Opcode::ComparisonLessThanEqual { dest, in1, in2 } => {
            let v = match cmp_values(&state.registers[in1 as usize], &state.registers[in2 as usize]) {
                Some(c) => Value::Boolean(!matches!(c, Cmp::Greater)),
                None => {
                    return Err(VmError::TypeMismatch);
                },
            };
            state.registers.set(dest as usize, v);
            Ok(0)
        },
        Opcode::JumpIfFalseRelative { test, offset } => {
            match &state.registers[test as usize] {
                Value::Boolean(b) => Ok(
                    if !*b {
                        offset
                    } else {
                        0
                    },
                ),
                _ => Err(VmError::TypeMismatch),
            }
        },
        Opcode::JumpIfTrueRelative { test, offset } => {
            match &state.registers[test as usize] {
                Value::Boolean(b) => Ok(
                    if *b {
                        offset
                    } else {
                        0
                    },
                ),
                _ => Err(VmError::TypeMismatch),
            }
        },
        Opcode::CopyConstant { dest, const_lookup } => {
            let i: i64 = match &state.registers[const_lookup as usize] {
                Value::Number(i) => *i,
                _ => {
                    return Err(VmError::TypeMismatch);
                },
            };
            if i < 0 || (i as u64) >= (state.constants.len() as u64) {
                return Err(VmError::ConstantNotFound);
            }
            let v = deep_copy(&state.constants[i as usize]);
            state.registers.set(dest as usize, v);
            Ok(0)
        },
        Opcode::ArrayAssignment { array_reg, index, value } => {
            if !matches!(&state.registers[array_reg as usize], Value::Array(_)) {
                return Err(VmError::TypeMismatch);
            }
            let i: i64 = match &state.registers[index as usize] {
                Value::Number(i) => *i,
                _ => {
                    return Err(VmError::TypeMismatch);
                },
            };
            let arr_len: usize = match &state.registers[array_reg as usize] {
                Value::Array(items) => {
                    proof {
                        lemma_models(items@);
                    }
                    items.len()
                },
                _ => {
                    return Err(VmError::TypeMismatch);
                },
            };
            if i < 0 || (i as u64) >= (arr_len as u64) {
                return Err(VmError::IndexOutOfBounds);
            }
            let v = deep_copy(&state.registers[value as usize]);
            let mut items_copy: Vec<Value> = match &state.registers[array_reg as usize] {
                Value::Array(items) => copy_values(items),
                _ => {
                    return Err(VmError::TypeMismatch);
                },
            };
            let ghost items0 = state.registers@[array_reg as int]->Array_0@;
            let ghost copy0 = items_copy@;
            items_copy.set(i as usize, v);
            proof {
                lemma_models(items0);
                lemma_models_update(copy0, i as int, v);
                assert(models(items_copy@) =~= models(items0).update(i as int, v.model()));
            }
            let ghost regs0 = state.registers@;
            state.registers.set(array_reg as usize, Value::Array(items_copy));
            proof {
                lemma_models_update(regs0, array_reg as int, Value::Array(items_copy));
                assert(view_of(*state) =~= (VmView {
                    registers: models(regs0).update(
                        array_reg as int,
                        AbstractValue::Array(models(items0).update(i as int, v.model())),
                    ),
                    ..view_of(*old(state))
                }));
            }
            Ok(0)
        },
        Opcode::ArrayGet { array_reg, index, dest } => {
            let i: i64 = match &state.registers[array_reg as usize] {
                Value::Array(_) => match &state.registers[index as usize] {
                    Value::Number(i) => *i,
                    _ => {
                        return Err(VmError::TypeMismatch);
                    },
                },
                _ => {
                    return Err(VmError::TypeMismatch);
                },
            };
            let v = match &state.registers[array_reg as usize] {
                Value::Array(items) => {
                    proof {
                        lemma_models(items@);
                    }
                    if i < 0 || (i as u64) >= (items.len() as u64) {
                        return Err(VmError::IndexOutOfBounds);
                    }
                    deep_copy(&items[i as usize])
                },
                _ => {
                    return Err(VmError::TypeMismatch);
                },
            };
            let ghost regs0 = state.registers@;
            state.registers.set(dest as usize, v);
            proof {
                lemma_models_update(regs0, dest as int, v);
            }
            Ok(0)
        },
    }
}

/// The outcome of a budgeted run: normal termination (the pointer ran
/// off the end), a fatal error, or an exhausted step budget with the
/// run still in flight.
pub ghost enum RunOutcome {
    Done(VmView),
    Failed(VmError, VmView),
    OutOfSteps(VmView, int),
}

/// What running the sequence from state `s` at pointer `ip` for at
/// most `fuel` instructions yields. Each cycle applies [`spec_step`]
/// and then increments the pointer once more.
pub open spec fn spec_run(program: Seq<Opcode>, s: VmView, ip: int, fuel: nat) -> RunOutcome
    decreases fuel,
{
    if ip >= program.len() {
        RunOutcome::Done(s)
    } else if ip < 0 {
        RunOutcome::Failed(VmError::JumpOutOfRange, s)
    } else if fuel == 0 {
        RunOutcome::OutOfSteps(s, ip)
    } else {
        match spec_step(s, program[ip]) {
            Ok(t) => spec_run(program, t.0, ip + t.1 + 1, (fuel - 1) as nat),
            Err(e) => RunOutcome::Failed(e, s),
        }
    }
}

/// Executes `program` against `state` until the instruction pointer
/// runs off the end (normal termination), a fatal error occurs, or
/// `max_steps` instructions have been executed, exactly as
/// [`spec_run`] describes. A caller that wants the unbounded behavior
/// of the machine passes the largest budget; no realizable run
/// outlives it.
pub fn execute_program(program: &Vec<Opcode>, state: &mut VMState, max_steps: u64) -> (r: Result<
    (),
    VmError,
>)
    requires
        vm_wf(*old(state)),
        program@.len() < 0x4000_0000_0000_0000,
    ensures
        vm_wf(*final(state)),
        ({
            let out = spec_run(program@, view_of(*old(state)), 0, max_steps as nat);
            match r {
                Ok(()) => out == RunOutcome::Done(view_of(*final(state))),
                Err(e) => if e == VmError::StepLimitExceeded {
                    out matches RunOutcome::OutOfSteps(v, _ip) && v == view_of(*final(state))
                } else {
                    out == RunOutcome::Failed(e, view_of(*final(state)))
                },
            }
        }),
{
    let mut ip: i64 = 0;
    let mut steps: u64 = 0;
    loop
        invariant
            vm_wf(*state),
            program@.len() < 0x4000_0000_0000_0000,
            steps <= max_steps,
            -40000 <= ip <= program@.len() + 40000,
            spec_run(program@, view_of(*old(state)), 0, max_steps as nat) == spec_run(
                program@,
                view_of(*state),
                ip as int,
                (max_steps - steps) as nat,
            ),
        decreases max_steps - steps,
    {
        if ip >= program.len() as i64 {
            return Ok(());
        }
        if ip < 0 {
            return Err(VmError::JumpOutOfRange);
        }
        if steps == max_steps {
            return Err(VmError::StepLimitExceeded);
        }
        let instr = program[ip as usize];
        match step(state, instr) {
            Ok(d) => {
                ip = ip + (d as i64) + 1;
                steps = steps + 1;
            },
            Err(e) => {
                return Err(e);
            },
        }
    }
}

/// Law: the `Len` builtin on an array. In any state whose register
/// above the argument register holds an array of `n` elements -- a
/// freshly loaded string constant of length `n`, for instance -- a
/// `Len` syscall writes `n` into the argument register as a number and
/// touches nothing else.
pub proof fn lemma_len_builtin(s: VmView, args: Register, items: Seq<AbstractValue>)
    requires
        args < 255,
        s.registers[args as int + 1] == AbstractValue::Array(items),
        items.len() <= i64::MAX,
    ensures
        spec_step(s, Opcode::SysCall { args, function_id: SYSCALL_LEN }) == Ok::<
            (VmView, int),
            VmError,
        >((set_reg(s, args, AbstractValue::Number(items.len() as int)), 0)),
{
}

/// Law: the `Len` builtin on anything but an array is a fatal type
/// error.
pub proof fn lemma_len_builtin_wrong_tag(s: VmView, args: Register)
    requires
        args < 255,
        !(s.registers[args as int + 1] is Array),
    ensures
        spec_step(s, Opcode::SysCall { args, function_id: SYSCALL_LEN }) == Err::<
            (VmView, int),
            VmError,
        >(VmError::TypeMismatch),
{
}

/// Law: bounds on array element assignment. Writing at an index equal
/// to or beyond the array's current length (or below zero) is a fatal
/// bounds error -- the array never grows silently -- and an in-range
/// write replaces exactly the addressed element.
pub proof fn lemma_array_assignment_bounds(
    s: VmView,
    array_reg: Register,
    index: Register,
    value: Register,
    items: Seq<AbstractValue>,
    i: int,
)
    requires
        s.registers[array_reg as int] == AbstractValue::Array(items),
        s.registers[index as int] == AbstractValue::Number(i),
    ensures
        !(0 <= i < items.len()) ==> spec_step(
            s,
            Opcode::ArrayAssignment { array_reg, index, value },
        ) == Err::<(VmView, int), VmError>(VmError::IndexOutOfBounds),
        0 <= i < items.len() ==> spec_step(
            s,
            Opcode::ArrayAssignment { array_reg, index, value },
        ) == Ok::<(VmView, int), VmError>(
            (
                set_reg(
                    s,
                    array_reg,
                    AbstractValue::Array(items.update(i, s.registers[value as int])),
                ),
                0,
            ),
        ),
{
}

} // verus!
