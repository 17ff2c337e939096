//! The syntax tree as a mathematical value: what a tree of
//! [`crate::expr::Expr`] and [`crate::stmt::Stmt`] holds, with its lists as
//! sequences.

use vstd::prelude::*;
use std::rc::Rc;
use crate::expr::Expr;
use crate::stmt::{FunctionDecl, Stmt};
use crate::token::{Literal, Token};

verus! {

/// An expression as a mathematical value.
#[allow(inconsistent_fields)]
pub enum ExprView {
    Binary { left: Box<ExprView>, operator: Token, right: Box<ExprView> },
    Unary { operator: Token, right: Box<ExprView> },
    Grouping { expression: Box<ExprView> },
    Literal { value: Literal },
    Logical { left: Box<ExprView>, operator: Token, right: Box<ExprView> },
    Variable { name: Token, id: usize },
    Assign { name: Token, value: Box<ExprView>, id: usize },
    Call { callee: Box<ExprView>, paren: Token, arguments: Seq<ExprView> },
    Get { object: Box<ExprView>, name: Token },
    SetField { object: Box<ExprView>, name: Token, value: Box<ExprView> },
    This { keyword: Token, id: usize },
}

/// A function declaration as a mathematical value.
pub struct FunctionView {
    pub name: Token,
    pub params: Seq<Token>,
    pub body: Seq<StmtView>,
}

/// A statement as a mathematical value.
pub enum StmtView {
    Expression { expression: ExprView },
    Function { declaration: FunctionView },
    Print { expression: ExprView },
    Return { keyword: Token, value: ExprView },
    Var { name: Token, initializer: ExprView },
    Block { statements: Seq<StmtView> },
    Class { name: Token, superclass: Option<ExprView>, methods: Seq<FunctionView> },
    If { condition: ExprView, then_branch: Box<StmtView>, else_branch: Option<Box<StmtView>> },
    While { condition: ExprView, body: Box<StmtView> },
}

/// What an expression holds.
pub open spec fn expr_view(e: Expr) -> ExprView
    decreases e,
{
    match e {
        Expr::Binary { left, operator, right } => ExprView::Binary {
            left: Box::new(expr_view(*left)),
            operator,
            right: Box::new(expr_view(*right)),
        },
        Expr::Unary { operator, right } => ExprView::Unary {
            operator,
            right: Box::new(expr_view(*right)),
        },
        Expr::Grouping { expression } => ExprView::Grouping {
            expression: Box::new(expr_view(*expression)),
        },
        Expr::Literal { value } => ExprView::Literal { value },
        Expr::Logical { left, operator, right } => ExprView::Logical {
            left: Box::new(expr_view(*left)),
            operator,
            right: Box::new(expr_view(*right)),
        },
        Expr::Variable { name, id } => ExprView::Variable { name, id },
        Expr::Assign { name, value, id } => ExprView::Assign {
            name,
            value: Box::new(expr_view(*value)),
            id,
        },
        Expr::Call { callee, paren, arguments } => ExprView::Call {
            callee: Box::new(expr_view(*callee)),
            paren,
            arguments: expr_views(arguments, arguments.len() as nat),
        },
        Expr::Get { object, name } => ExprView::Get { object: Box::new(expr_view(*object)), name },
        Expr::SetField { object, name, value } => ExprView::SetField {
            object: Box::new(expr_view(*object)),
            name,
            value: Box::new(expr_view(*value)),
        },
        Expr::This { keyword, id } => ExprView::This { keyword, id },
    }
}

/// What the first `count` expressions of a list hold.
pub open spec fn expr_views(list: Vec<Expr>, count: nat) -> Seq<ExprView>
    decreases list, count,
{
    if count == 0 || count > list.len() {
        Seq::empty()
    } else {
        expr_views(list, (count - 1) as nat).push(expr_view(list[count - 1]))
    }
}

/// What a statement holds.
pub open spec fn stmt_view(s: Stmt) -> StmtView
    decreases s,
{
    match s {
        Stmt::Expression { expression } => StmtView::Expression {
            expression: expr_view(expression),
        },
        Stmt::Function { declaration } => StmtView::Function {
            declaration: function_view(*declaration),
        },
        Stmt::Print { expression } => StmtView::Print { expression: expr_view(expression) },
        Stmt::Return { keyword, value } => StmtView::Return { keyword, value: expr_view(value) },
        Stmt::Var { name, initializer } => StmtView::Var {
            name,
            initializer: expr_view(initializer),
        },
        Stmt::Block { statements } => StmtView::Block {
            statements: stmt_views(statements, statements.len() as nat),
        },
        Stmt::Class { name, superclass, methods } => StmtView::Class {
            name,
            superclass: match superclass {
                Some(parent) => Some(expr_view(parent)),
                None => None,
            },
            methods: function_views(methods, methods.len() as nat),
        },
        Stmt::If { condition, then_branch, else_branch } => StmtView::If {
            condition: expr_view(condition),
            then_branch: Box::new(stmt_view(*then_branch)),
            else_branch: match else_branch {
                Some(other) => Some(Box::new(stmt_view(*other))),
                None => None,
            },
        },
        Stmt::While { condition, body } => StmtView::While {
            condition: expr_view(condition),
            body: Box::new(stmt_view(*body)),
        },
    }
}

/// What the first `count` statements of a list hold.
pub open spec fn stmt_views(list: Vec<Stmt>, count: nat) -> Seq<StmtView>
    decreases list, count,
{
    if count == 0 || count > list.len() {
        Seq::empty()
    } else {
        stmt_views(list, (count - 1) as nat).push(stmt_view(list[count - 1]))
    }
}

/// What a function declaration holds.
pub open spec fn function_view(declaration: FunctionDecl) -> FunctionView
    decreases declaration,
{
    FunctionView {
        name: declaration.name,
        params: declaration.params@,
        body: stmt_views(declaration.body, declaration.body.len() as nat),
    }
}

/// What the first `count` function declarations of a list hold.
pub open spec fn function_views(list: Vec<Rc<FunctionDecl>>, count: nat) -> Seq<FunctionView>
    decreases list, count,
{
    if count == 0 || count > list.len() {
        Seq::empty()
    } else {
        function_views(list, (count - 1) as nat).push(function_view(*list[count - 1]))
    }
}

/// What a program holds.
pub open spec fn program_view(statements: Vec<Stmt>) -> Seq<StmtView> {
    stmt_views(statements, statements.len() as nat)
}

/// Two lists that begin with the same expressions hold the same there.
pub proof fn lemma_expr_views_agree(a: Vec<Expr>, b: Vec<Expr>, count: nat)
    requires
        count <= a.len(),
        count <= b.len(),
        forall|i: int| 0 <= i < count ==> a[i] == b[i],
    ensures
        expr_views(a, count) == expr_views(b, count),
    decreases count,
{
    if count > 0 {
        lemma_expr_views_agree(a, b, (count - 1) as nat);
    }
}

/// Two lists that begin with the same statements hold the same there.
pub proof fn lemma_stmt_views_agree(a: Vec<Stmt>, b: Vec<Stmt>, count: nat)
    requires
        count <= a.len(),
        count <= b.len(),
        forall|i: int| 0 <= i < count ==> a[i] == b[i],
    ensures
        stmt_views(a, count) == stmt_views(b, count),
    decreases count,
{
    if count > 0 {
        lemma_stmt_views_agree(a, b, (count - 1) as nat);
    }
}

/// Two lists that begin with the same declarations hold the same there.
pub proof fn lemma_function_views_agree(
    a: Vec<Rc<FunctionDecl>>,
    b: Vec<Rc<FunctionDecl>>,
    count: nat,
)
    requires
        count <= a.len(),
        count <= b.len(),
        forall|i: int| 0 <= i < count ==> a[i] == b[i],
    ensures
        function_views(a, count) == function_views(b, count),
    decreases count,
{
    if count > 0 {
        lemma_function_views_agree(a, b, (count - 1) as nat);
    }
}

/// The views of a list hold, at each place, what the expression there
/// holds.
pub proof fn lemma_expr_views_index(list: Vec<Expr>, count: nat, i: int)
    requires
        0 <= i < count <= list.len(),
    ensures
        expr_views(list, count).len() == count,
        expr_views(list, count)[i] == expr_view(list[i]),
    decreases count,
{
    lemma_expr_views_len(list, count);
    if i < count - 1 {
        lemma_expr_views_index(list, (count - 1) as nat, i);
        lemma_expr_views_len(list, (count - 1) as nat);
    }
}

/// The views of the first expressions of a list are as many as they.
pub proof fn lemma_expr_views_len(list: Vec<Expr>, count: nat)
    requires
        count <= list.len(),
    ensures
        expr_views(list, count).len() == count,
    decreases count,
{
    if count > 0 {
        lemma_expr_views_len(list, (count - 1) as nat);
    }
}

/// Appends an expression to a list.
pub fn push_expr(list: &mut Vec<Expr>, e: Expr)
    ensures
        final(list)@ == old(list)@.push(e),
        expr_views(*final(list), final(list).len() as nat) == expr_views(
            *old(list),
            old(list).len() as nat,
        ).push(expr_view(e)),
        expr_views(*final(list), final(list).len() as nat).len() == expr_views(
            *old(list),
            old(list).len() as nat,
        ).len() + 1,
{
    let ghost before = *list;
    list.push(e);
    proof {
        lemma_expr_views_agree(before, *list, before.len() as nat);
    }
}

/// Appends a statement to a list.
pub fn push_stmt(list: &mut Vec<Stmt>, s: Stmt)
    ensures
        final(list)@ == old(list)@.push(s),
        stmt_views(*final(list), final(list).len() as nat) == stmt_views(
            *old(list),
            old(list).len() as nat,
        ).push(stmt_view(s)),
{
    let ghost before = *list;
    list.push(s);
    proof {
        lemma_stmt_views_agree(before, *list, before.len() as nat);
    }
}

/// Appends a function declaration to a list.
pub fn push_function(list: &mut Vec<Rc<FunctionDecl>>, declaration: FunctionDecl)
    ensures
        final(list)@ == old(list)@.push(Rc::new(declaration)),
        function_views(*final(list), final(list).len() as nat) == function_views(
            *old(list),
            old(list).len() as nat,
        ).push(function_view(declaration)),
{
    let ghost before = *list;
    list.push(Rc::new(declaration));
    proof {
        lemma_function_views_agree(before, *list, before.len() as nat);
    }
}

} // verus!
