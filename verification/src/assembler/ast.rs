//! The syntax-tree node types produced by the tree builder.

use vstd::prelude::*;

use crate::Unit;

verus! {

/// One node of the syntax tree.
#[derive(Debug, PartialEq, Eq)]
pub enum AstNode {
    Instruction(Instruction),
    LabelDeclaration(Label),
    Directive(Directive),
}

/// An instruction whose operands may still refer to labels or line
/// offsets, not yet resolved to plain locations.
#[derive(Debug, PartialEq, Eq)]
pub enum Instruction {
    Mov(Usd),
    Add(Usd),
    Sub(Usd),
    Mul(Usd),
    Div(Usd),
    Cmp(Usd),
    Jg(Address),
    Je(Address),
    Jl(Address),
    Jmp(Address),
    Int(IntegerExpr),
    Iret,
    And(Usd),
    Or(Usd),
    Xor(Usd),
    Not(Usd),
    Shl(Usd),
    Shr(Usd),
}

/// The operand triple of a two-operand instruction, over unresolved
/// integer expressions.
#[derive(Debug, PartialEq, Eq)]
pub struct Usd {
    pub unit: Unit,
    pub source: Source,
    pub destination: Address,
}

/// The source operand: an immediate expression or a pointer to an address.
#[derive(Debug, PartialEq, Eq)]
pub enum Source {
    Value(IntegerExpr),
    Pointer(Address),
}

/// An integer whose value may be given directly or relative to the current
/// line.
#[derive(Debug, PartialEq, Eq)]
pub enum IntegerExpr {
    Literal(i64),
    LineOffset(i64),
}

/// An address expression with its indirection count.
#[derive(Debug, PartialEq, Eq)]
pub struct Address {
    pub location: IntegerExpr,
    pub depth: u8,
}

/// A label declaration: absolute, or relative to the enclosing absolute
/// label.
#[derive(Debug, PartialEq, Eq)]
pub enum Label {
    Absolute(String),
    Relative(String),
}

/// A data directive: reserve bytes (with an optional fill value), or embed
/// a string.
#[derive(Debug, PartialEq, Eq)]
pub enum Directive {
    DeclareBytes(usize, Option<u8>),
    DeclareString(String),
}

} // verus!
