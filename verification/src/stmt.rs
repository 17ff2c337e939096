//! The statement tree.

use vstd::prelude::*;
use std::rc::Rc;
use crate::expr::Expr;
use crate::token::Token;

verus! {

/// A function or method as written: its name, parameters and body.
#[derive(Debug)]
pub struct FunctionDecl {
    pub name: Token,
    pub params: Vec<Token>,
    pub body: Vec<Stmt>,
}

/// A statement. A declaration of a function is shared between the tree and
/// every function value made from it. A `return` without a value and a `var`
/// without an initialiser hold the literal nil.
#[derive(Debug)]
pub enum Stmt {
    Expression { expression: Expr },
    Function { declaration: Rc<FunctionDecl> },
    Print { expression: Expr },
    Return { keyword: Token, value: Expr },
    Var { name: Token, initializer: Expr },
    Block { statements: Vec<Stmt> },
    Class { name: Token, superclass: Option<Expr>, methods: Vec<Rc<FunctionDecl>> },
    If { condition: Expr, then_branch: Box<Stmt>, else_branch: Option<Box<Stmt>> },
    While { condition: Expr, body: Box<Stmt> },
}

} // verus!
