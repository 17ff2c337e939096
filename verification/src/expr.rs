//! The expression tree.

use vstd::prelude::*;
use crate::token::{Literal, Token};

verus! {

/// An expression. A variable read, an assignment and `this` each carry an
/// identifier, given once when the tree is built, under which the resolver
/// records how far away the binding is.
#[derive(Debug)]
#[allow(inconsistent_fields)]
pub enum Expr {
    Binary { left: Box<Expr>, operator: Token, right: Box<Expr> },
    Unary { operator: Token, right: Box<Expr> },
    Grouping { expression: Box<Expr> },
    Literal { value: Literal },
    Logical { left: Box<Expr>, operator: Token, right: Box<Expr> },
    Variable { name: Token, id: usize },
    Assign { name: Token, value: Box<Expr>, id: usize },
    Call { callee: Box<Expr>, paren: Token, arguments: Vec<Expr> },
    Get { object: Box<Expr>, name: Token },
    SetField { object: Box<Expr>, name: Token, value: Box<Expr> },
    This { keyword: Token, id: usize },
}

} // verus!
