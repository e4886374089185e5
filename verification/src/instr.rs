//! The instruction set: a closed family of fixed-width opcodes.
//!
//! Every instruction is one opcode tag plus at most three register
//! operands, or one register operand plus one 16-bit immediate. The
//! fixed width is a design invariant: instruction sequences are stored
//! and scanned as flat arrays with no variable-length decoding.

use vstd::prelude::*;

verus! {

/// An index into the fixed 256-slot register file.
pub type Register = u8;

/// The fixed-width immediate: numeric literals, relative jump offsets,
/// and syscall / constant-pool indices all use this type.
pub type LiteralInteger = i16;

/// One fixed-width instruction.
///
/// The arithmetic and comparison opcodes each take a destination and two
/// input registers. `LoadLiteral` writes an immediate number.
/// `CopyRegister` copies one register into another (deeply, for arrays).
/// `CopyConstant` replaces the destination with the constant-pool entry
/// whose index the `const_lookup` register holds. The two jump opcodes
/// adjust the instruction pointer by `offset` *before* the interpreter's
/// unconditional increment, so their effective displacement is
/// `offset + 1`. `SysCall` invokes a host builtin on the argument window
/// that starts at register `args`.
#[derive(Copy, Clone, Debug, PartialEq, Eq, Structural)]
pub enum Opcode {
    Add { dest: Register, in1: Register, in2: Register },
    Subtract { dest: Register, in1: Register, in2: Register },
    Multiply { dest: Register, in1: Register, in2: Register },
    Divide { dest: Register, in1: Register, in2: Register },
    Power { dest: Register, in1: Register, in2: Register },
    LoadLiteral { dest: Register, value: LiteralInteger },
    CopyRegister { dest: Register, copy_from: Register },
    SysCall { args: Register, function_id: LiteralInteger },
    ComparisonEqual { dest: Register, in1: Register, in2: Register },
    ComparisonNotEqual { dest: Register, in1: Register, in2: Register },
    ComparisonGreaterThan { dest: Register, in1: Register, in2: Register },
    ComparisonGreaterThanEqual { dest: Register, in1: Register, in2: Register },
    ComparisonLessThan { dest: Register, in1: Register, in2: Register },
    ComparisonLessThanEqual { dest: Register, in1: Register, in2: Register },
    JumpIfFalseRelative { test: Register, offset: LiteralInteger },
    JumpIfTrueRelative { test: Register, offset: LiteralInteger },
    CopyConstant { dest: Register, const_lookup: Register },
    ArrayAssignment { array_reg: Register, index: Register, value: Register },
    ArrayGet { array_reg: Register, index: Register, dest: Register },
}
} // verus!
