//! The parse-tree contract consumed from the text front end.
//!
//! The grammar-driven front end is an external collaborator: it turns
//! program text into a sequence of statement nodes of the shapes below,
//! carrying the raw matched text of every leaf. The compiler consumes
//! these nodes; it never re-tokenizes source text, except to read the
//! digits of numeric literals.

use vstd::prelude::*;

verus! {

/// A leaf of an expression: a numeric literal (raw digit text), an
/// identifier, a string literal (its decoded text), or a read of one
/// array element (`name[index]`, the index again as raw digit text).
#[derive(Clone, Debug, PartialEq)]
pub enum ValueNode {
    Number(String),
    Ident(String),
    StringLit(String),
    ArrayElement { array: String, index: String },
}

/// A binary operator of the expression grammar. Three precedence tiers:
/// `{Add, Subtract}` below `{Multiply, Divide}` below `{Power}`; all are
/// left-associative except `Power`, which is right-associative.
#[derive(Copy, Clone, Debug, PartialEq, Eq, Structural)]
pub enum BinaryOperator {
    Add,
    Subtract,
    Multiply,
    Divide,
    Power,
}

/// One operand of an expression: a leaf value or a parenthesized
/// subexpression.
#[derive(Debug)]
pub enum Operand {
    Value(ValueNode),
    Subexpression(Box<Expression>),
}

/// One `operator operand` continuation of an expression.
#[derive(Debug)]
pub struct ExpressionTail {
    pub op: BinaryOperator,
    pub operand: Operand,
}

/// A flat expression node as the front end yields it: a first operand
/// followed by `operator operand` pairs, *not* yet grouped by
/// precedence. Grouping is the compiler's precedence-climbing pass.
#[derive(Debug)]
pub struct Expression {
    pub first: Operand,
    pub rest: Vec<ExpressionTail>,
}

/// A comparison operator of the condition grammar.
#[derive(Copy, Clone, Debug, PartialEq, Eq, Structural)]
pub enum ComparisonOperator {
    BoolEqual,
    NotEqual,
    GreaterThan,
    GreaterThanEqual,
    LessThan,
    LessThanEqual,
}

/// The condition of an `if` or `while` statement.
#[derive(Debug)]
pub struct Comparison {
    pub lhs: Expression,
    pub op: ComparisonOperator,
    pub rhs: Expression,
}

/// The target of an assignment statement: a plain name or one element
/// of a named array (the index as raw digit text).
#[derive(Clone, Debug, PartialEq)]
pub enum AssignTarget {
    Ident(String),
    ArrayElement { array: String, index: String },
}

/// One top-level or block statement.
#[derive(Debug)]
pub enum Statement {
    Assignment { target: AssignTarget, expr: Expression },
    FunctionCall { name: String, args: Vec<ValueNode> },
    IfStatement { condition: Comparison, block: Vec<Statement> },
    WhileLoop { condition: Comparison, block: Vec<Statement> },
}

/// The record a front end keeps for a user function definition: the raw
/// text of the argument list and of the body block.
#[derive(Clone, Debug, PartialEq)]
pub struct Function {
    pub args: String,
    pub function: String,
}

/// Packs the raw argument-list text and body text of a user function
/// definition into a [`Function`] record.
pub fn build_function(args: String, function: String) -> (f: Function)
    ensures
        f.args == args,
        f.function == function,
{
    Function { args, function }
}

/// The precedence tier of a binary operator; higher binds tighter.
pub open spec fn spec_precedence_of(op: BinaryOperator) -> u32 {
    match op {
        BinaryOperator::Add => 1,
        BinaryOperator::Subtract => 1,
        BinaryOperator::Multiply => 2,
        BinaryOperator::Divide => 2,
        BinaryOperator::Power => 3,
    }
}

/// Exec mirror of [`spec_precedence_of`].
#[verifier::when_used_as_spec(spec_precedence_of)]
pub fn precedence_of(op: BinaryOperator) -> (p: u32)
    ensures
        p == spec_precedence_of(op),
{
    match op {
        BinaryOperator::Add => 1,
        BinaryOperator::Subtract => 1,
        BinaryOperator::Multiply => 2,
        BinaryOperator::Divide => 2,
        BinaryOperator::Power => 3,
    }
}

/// Whether a binary operator is right-associative.
pub open spec fn spec_is_right_assoc(op: BinaryOperator) -> bool {
    op is Power
}

/// Exec mirror of [`spec_is_right_assoc`].
#[verifier::when_used_as_spec(spec_is_right_assoc)]
pub fn is_right_assoc(op: BinaryOperator) -> (r: bool)
    ensures
        r == spec_is_right_assoc(op),
{
    matches!(op, BinaryOperator::Power)
}

} // verus!
