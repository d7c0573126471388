use vstd::prelude::*;
use crate::types::Type;

verus! {

/// Binary operators of the source language.
#[derive(Clone, Copy, Debug, PartialEq, Eq, Structural)]
pub enum CBinOps {
    Add,
    Sub,
    Mul,
    Div,
    Rem,
    And,
    Or,
    Xor,
    LAnd,
    LOr,
    Eq,
    Ne,
    Lt,
    Gt,
    Le,
    Ge,
    Shl,
    Shr,
}

/// A node of the typed syntax tree that code generation consumes.
#[derive(Debug)]
pub enum AST {
    /// Signature (a `Type::Func`), parameter names, name, body.
    FuncDef(Type, Vec<String>, String, Box<AST>),
    Block(Vec<AST>),
    BinaryOp(Box<AST>, Box<AST>, CBinOps),
    Return(Box<AST>),
    Int(i64),
    /// A reference to a named variable.
    Variable(String),
}

} // verus!
