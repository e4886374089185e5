//! Core of a small scripting-language toolchain: a compiler from parse
//! trees to fixed-width register-machine instructions, and the virtual
//! machine that executes those instructions.
//!
//! The text-to-parse-tree front end is an external collaborator: it
//! hands the compiler a tree of statement nodes ([`ast`]). The compiler
//! ([`compile`]) resolves names to registers, literals to immediates
//! and constant-pool indices, and syscall names to numeric ids,
//! producing a flat instruction sequence ([`instr`]). The interpreter
//! ([`interp`]) runs that sequence against a register file of 256
//! slots, dispatching host builtins through the syscall registry
//! ([`syscall`]). The [`tape`] module holds the instruction-stream
//! optimizer of the companion tape machine.

pub mod ast;
pub mod compile;
pub mod instr;
pub mod interp;
pub mod laws;
pub mod literal;
pub mod syscall;
pub mod tape;
pub mod value;

pub use ast::AssignTarget;
pub use ast::BinaryOperator;
pub use ast::Comparison;
pub use ast::ComparisonOperator;
pub use ast::Expression;
pub use ast::ExpressionTail;
pub use ast::Function;
pub use ast::Operand;
pub use ast::Statement;
pub use ast::ValueNode;
pub use ast::build_function;
pub use compile::CompileData;
pub use compile::CompileError;
pub use compile::build_compile_data;
pub use compile::compile_program;
pub use instr::LiteralInteger;
pub use instr::Opcode;
pub use instr::Register;
pub use interp::VMState;
pub use interp::VmError;
pub use interp::build_state;
pub use interp::execute_program;
pub use syscall::register_syscalls;
pub use tape::TapeOp;
pub use tape::optimize;
pub use tape::optimize_loops;
pub use value::AbstractValue;
pub use value::Value;
pub use value::build_print_string;
