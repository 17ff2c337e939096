//! The grammar of the language: what a list of tokens means as a program,
//! as mathematical functions from a place in the list to the tree read
//! there and the place after it.
//!
//! Each function reads from the place of a cursor on and yields the cursor
//! after what it read, with the reports made on the way, and a tree or the
//! message of the error that stopped it. Where a function goes on from the
//! cursor that another one yielded, it makes sure of that cursor, by
//! [`forward`] or by a comparison, which changes nothing for the cursors
//! that the functions of this grammar yield: none of them moves backward
//! or past the end.

use vstd::prelude::*;
use crate::ast::{ExprView, FunctionView, StmtView};
use crate::error::token_reports;
use crate::token::{Literal, Token};
use crate::token_type::TokenType;

verus! {

/// A place in a list of tokens, and the reports made so far.
pub struct Cursor {
    pub pos: nat,
    pub reports: Seq<Seq<char>>,
}

/// A tree, or the message of the error that stopped the parser.
pub type Read<T> = Result<T, Seq<char>>;

/// The kind of the token at a place; past the list, the end of input.
pub open spec fn kind_at(t: Seq<Token>, pos: nat) -> TokenType {
    if pos < t.len() {
        t[pos as int].token_type
    } else {
        TokenType::EOF
    }
}

/// Whether the cursor stands at the end of input.
pub open spec fn at_end(t: Seq<Token>, c: Cursor) -> bool {
    kind_at(t, c.pos) == TokenType::EOF
}

/// Whether the cursor stands at a token of the given kind.
pub open spec fn check(t: Seq<Token>, c: Cursor, kind: TokenType) -> bool {
    !at_end(t, c) && kind_at(t, c.pos) == kind
}

/// The cursor one token on.
pub open spec fn step(c: Cursor) -> Cursor {
    Cursor { pos: c.pos + 1, ..c }
}

/// The cursor, where it stands at `floor` or after it and within the
/// list; else the cursor at the end of the list.
pub open spec fn forward(t: Seq<Token>, c: Cursor, floor: nat) -> Cursor {
    if floor <= c.pos <= t.len() {
        c
    } else {
        Cursor { pos: t.len(), ..c }
    }
}

/// How many tokens lie at the cursor and after it.
pub open spec fn remaining(t: Seq<Token>, c: Cursor) -> nat {
    if c.pos <= t.len() {
        (t.len() - c.pos) as nat
    } else {
        0
    }
}

/// The cursor after an error at the token at `at` is reported.
pub open spec fn complain(t: Seq<Token>, c: Cursor, at: nat, message: Seq<char>) -> Cursor {
    Cursor { reports: c.reports + token_reports(t[at as int], message), ..c }
}

/// The identifier of the expression whose name is the token at `pos`:
/// its place in the list, counted from `origin`.
pub open spec fn identifier(origin: usize, pos: nat) -> usize {
    if origin + pos <= usize::MAX {
        (origin + pos) as usize
    } else {
        usize::MAX
    }
}

/// A token of the given kind is read, or its absence reported.
pub open spec fn consume(t: Seq<Token>, c: Cursor, kind: TokenType, message: Seq<char>) -> (
    Cursor,
    Read<Token>,
) {
    if check(t, c, kind) {
        (step(c), Ok(t[c.pos as int]))
    } else {
        (complain(t, c, c.pos, message), Err(message))
    }
}

/// Whether a token of the given kind is an operator of the given level of
/// binary operators, from `or`, the loosest, to the multiplicative ones.
pub open spec fn operator_of(level: nat, kind: TokenType) -> bool {
    if level == 0 {
        kind == TokenType::Or
    } else if level == 1 {
        kind == TokenType::And
    } else if level == 2 {
        kind == TokenType::BangEqual || kind == TokenType::EqualEqual
    } else if level == 3 {
        kind == TokenType::Greater || kind == TokenType::GreaterEqual || kind == TokenType::Less
            || kind == TokenType::LessEqual
    } else if level == 4 {
        kind == TokenType::Minus || kind == TokenType::Plus
    } else {
        kind == TokenType::Slash || kind == TokenType::Star
    }
}

/// The expression of a binary operator of the given level.
pub open spec fn join(level: nat, left: ExprView, operator: Token, right: ExprView) -> ExprView {
    if level < 2 {
        ExprView::Logical { left: Box::new(left), operator, right: Box::new(right) }
    } else {
        ExprView::Binary { left: Box::new(left), operator, right: Box::new(right) }
    }
}

/// What an assignment to a target means: a variable is assigned, a
/// property written, and nothing else can be a target.
pub open spec fn assign_to(target: ExprView, value: ExprView) -> Option<ExprView> {
    match target {
        ExprView::Variable { name, id } => Some(
            ExprView::Assign { name, value: Box::new(value), id },
        ),
        ExprView::Get { object, name } => Some(
            ExprView::SetField { object, name, value: Box::new(value) },
        ),
        _ => None,
    }
}

/// A `for` loop written with the other statements: a block of the
/// initialiser and a `while` loop, whose body is a block of the loop's body
/// and the increment; the blocks are left out where the initialiser or the
/// increment is.
pub open spec fn desugar_for(
    initializer: Option<StmtView>,
    condition: ExprView,
    increment: Option<ExprView>,
    body: StmtView,
) -> StmtView {
    let stepped = match increment {
        Some(expression) => StmtView::Block {
            statements: seq![body, StmtView::Expression { expression }],
        },
        None => body,
    };
    let looped = StmtView::While { condition, body: Box::new(stepped) };
    match initializer {
        Some(first) => StmtView::Block { statements: seq![first, looped] },
        None => looped,
    }
}

/// The literal `true`, the condition of a `for` loop that names none.
pub open spec fn always() -> ExprView {
    ExprView::Literal { value: Literal::Bool(true) }
}

/// The literal nil, the value of a `return` or a `var` that names none.
pub open spec fn nothing() -> ExprView {
    ExprView::Literal { value: Literal::Nil }
}

/// The rank of a level of binary operators among the functions of the
/// grammar that may read from one place in turn.
pub open spec fn binary_rank(level: nat) -> nat {
    if level >= 6 {
        8
    } else {
        (20 - 2 * level) as nat
    }
}

/// An expression.
pub open spec fn expression(t: Seq<Token>, o: usize, c: Cursor) -> (Cursor, Read<ExprView>)
    decreases remaining(t, c), 22nat,
{
    assignment(t, o, c)
}

/// An assignment, or what stands in its place: an expression of the binary
/// operators. The assignment binds to the right.
pub open spec fn assignment(t: Seq<Token>, o: usize, c: Cursor) -> (Cursor, Read<ExprView>)
    decreases remaining(t, c), 21nat,
{
    match binary(t, o, c, 0) {
        (c1, Ok(target)) => if check(t, c1, TokenType::Equal) && c.pos <= c1.pos {
            match assignment(t, o, step(c1)) {
                (c2, Ok(value)) => match assign_to(target, value) {
                    Some(whole) => (c2, Ok(whole)),
                    None => (
                        complain(t, c2, c1.pos, "Invalid assignment target."@),
                        Err("Invalid assignment target."@),
                    ),
                },
                (c2, Err(message)) => (c2, Err(message)),
            }
        } else {
            (c1, Ok(target))
        },
        (c1, Err(message)) => (c1, Err(message)),
    }
}

/// An expression of the binary operators of the given level and the
/// tighter ones. The operators of one level bind to the left.
pub open spec fn binary(t: Seq<Token>, o: usize, c: Cursor, level: nat) -> (Cursor, Read<ExprView>)
    decreases remaining(t, c), binary_rank(level),
{
    if level >= 6 {
        unary(t, o, c)
    } else {
        match binary(t, o, c, level + 1) {
            (c1, Ok(left)) => binary_tail(t, o, forward(t, c1, c.pos), level, left),
            (c1, Err(message)) => (c1, Err(message)),
        }
    }
}

/// The operators of the given level that follow a left operand, with
/// their right operands.
pub open spec fn binary_tail(t: Seq<Token>, o: usize, c: Cursor, level: nat, left: ExprView) -> (
    Cursor,
    Read<ExprView>,
)
    decreases remaining(t, c), binary_rank(level) - 1,
{
    if level < 6 && !at_end(t, c) && operator_of(level, kind_at(t, c.pos)) {
        match binary(t, o, step(c), level + 1) {
            (c1, Ok(right)) => binary_tail(
                t,
                o,
                forward(t, c1, c.pos + 1),
                level,
                join(level, left, t[c.pos as int], right),
            ),
            (c1, Err(message)) => (c1, Err(message)),
        }
    } else {
        (c, Ok(left))
    }
}

/// A unary operator before its operand, or a call.
pub open spec fn unary(t: Seq<Token>, o: usize, c: Cursor) -> (Cursor, Read<ExprView>)
    decreases remaining(t, c), 3nat,
{
    if check(t, c, TokenType::Bang) || check(t, c, TokenType::Minus) {
        match unary(t, o, step(c)) {
            (c1, Ok(right)) => (
                c1,
                Ok(ExprView::Unary { operator: t[c.pos as int], right: Box::new(right) }),
            ),
            (c1, Err(message)) => (c1, Err(message)),
        }
    } else {
        call(t, o, c)
    }
}

/// A primary expression and the calls and property reads that follow it.
pub open spec fn call(t: Seq<Token>, o: usize, c: Cursor) -> (Cursor, Read<ExprView>)
    decreases remaining(t, c), 2nat,
{
    match primary(t, o, c) {
        (c1, Ok(target)) => call_tail(t, o, forward(t, c1, c.pos), target),
        (c1, Err(message)) => (c1, Err(message)),
    }
}

/// The calls and property reads that follow an expression.
pub open spec fn call_tail(t: Seq<Token>, o: usize, c: Cursor, target: ExprView) -> (
    Cursor,
    Read<ExprView>,
)
    decreases remaining(t, c), 1nat,
{
    if check(t, c, TokenType::LeftParen) {
        match finish_call(t, o, step(c), target) {
            (c1, Ok(made)) => call_tail(t, o, forward(t, c1, c.pos + 1), made),
            (c1, Err(message)) => (c1, Err(message)),
        }
    } else if check(t, c, TokenType::Dot) {
        match consume(t, step(c), TokenType::Identifier, "Expect property name after '.'."@) {
            (c1, Ok(name)) => call_tail(
                t,
                o,
                forward(t, c1, c.pos + 1),
                ExprView::Get { object: Box::new(target), name },
            ),
            (c1, Err(message)) => (c1, Err(message)),
        }
    } else {
        (c, Ok(target))
    }
}

/// The arguments of a call and its closing parenthesis, after the opening
/// one.
pub open spec fn finish_call(t: Seq<Token>, o: usize, c: Cursor, callee: ExprView) -> (
    Cursor,
    Read<ExprView>,
)
    decreases remaining(t, c), 24nat,
{
    let listed = if check(t, c, TokenType::RightParen) {
        (c, Ok(Seq::empty()))
    } else {
        arguments(t, o, c, Seq::empty())
    };
    match listed {
        (c1, Ok(list)) => match consume(
            t,
            c1,
            TokenType::RightParen,
            "Expect ')' after arguments."@,
        ) {
            (c2, Ok(paren)) => (
                c2,
                Ok(ExprView::Call { callee: Box::new(callee), paren, arguments: list }),
            ),
            (c2, Err(message)) => (c2, Err(message)),
        },
        (c1, Err(message)) => (c1, Err(message)),
    }
}

/// The arguments of a call after those in `done`, with commas between
/// them. More than 255 are reported and read all the same.
pub open spec fn arguments(t: Seq<Token>, o: usize, c: Cursor, done: Seq<ExprView>) -> (
    Cursor,
    Read<Seq<ExprView>>,
)
    decreases remaining(t, c), 23nat,
{
    let warned = if done.len() >= 255 {
        complain(t, c, c.pos, "Cannot have more than 255 arguments."@)
    } else {
        c
    };
    match expression(t, o, warned) {
        (c1, Ok(argument)) => if check(t, c1, TokenType::Comma) && c.pos <= c1.pos {
            arguments(t, o, step(c1), done.push(argument))
        } else {
            (c1, Ok(done.push(argument)))
        },
        (c1, Err(message)) => (c1, Err(message)),
    }
}

/// A literal, `this`, a variable or an expression in parentheses.
pub open spec fn primary(t: Seq<Token>, o: usize, c: Cursor) -> (Cursor, Read<ExprView>)
    decreases remaining(t, c), 0nat,
{
    if check(t, c, TokenType::False) {
        (step(c), Ok(ExprView::Literal { value: Literal::Bool(false) }))
    } else if check(t, c, TokenType::True) {
        (step(c), Ok(ExprView::Literal { value: Literal::Bool(true) }))
    } else if check(t, c, TokenType::Nil) {
        (step(c), Ok(nothing()))
    } else if check(t, c, TokenType::Number) || check(t, c, TokenType::String) {
        (step(c), Ok(ExprView::Literal { value: t[c.pos as int].literal }))
    } else if check(t, c, TokenType::This) {
        (step(c), Ok(ExprView::This { keyword: t[c.pos as int], id: identifier(o, c.pos) }))
    } else if check(t, c, TokenType::Identifier) {
        (step(c), Ok(ExprView::Variable { name: t[c.pos as int], id: identifier(o, c.pos) }))
    } else if check(t, c, TokenType::LeftParen) {
        match expression(t, o, step(c)) {
            (c1, Ok(inner)) => match consume(
                t,
                c1,
                TokenType::RightParen,
                "Expect')' after expression."@,
            ) {
                (c2, Ok(_)) => (c2, Ok(ExprView::Grouping { expression: Box::new(inner) })),
                (c2, Err(message)) => (c2, Err(message)),
            },
            (c1, Err(message)) => (c1, Err(message)),
        }
    } else {
        (complain(t, c, c.pos, "Expect expression."@), Err("Expect expression."@))
    }
}

/// A declaration of a variable, a class or a function, or a statement.
pub open spec fn declaration(t: Seq<Token>, o: usize, c: Cursor) -> (Cursor, Read<StmtView>)
    decreases remaining(t, c), 55nat,
{
    if check(t, c, TokenType::Var) {
        var_declaration(t, o, step(c))
    } else if check(t, c, TokenType::Class) {
        class_declaration(t, o, step(c))
    } else if check(t, c, TokenType::Fun) {
        match function(t, o, step(c), "function"@) {
            (c1, Ok(made)) => (c1, Ok(StmtView::Function { declaration: made })),
            (c1, Err(message)) => (c1, Err(message)),
        }
    } else {
        statement(t, o, c)
    }
}

/// A statement.
pub open spec fn statement(t: Seq<Token>, o: usize, c: Cursor) -> (Cursor, Read<StmtView>)
    decreases remaining(t, c), 50nat,
{
    if check(t, c, TokenType::For) {
        for_statement(t, o, step(c))
    } else if check(t, c, TokenType::If) {
        if_statement(t, o, step(c))
    } else if check(t, c, TokenType::Print) {
        print_statement(t, o, step(c))
    } else if check(t, c, TokenType::Return) {
        return_statement(t, o, step(c), t[c.pos as int])
    } else if check(t, c, TokenType::While) {
        while_statement(t, o, step(c))
    } else if check(t, c, TokenType::LeftBrace) {
        match block(t, o, step(c), Seq::empty()) {
            (c1, Ok(statements)) => (c1, Ok(StmtView::Block { statements })),
            (c1, Err(message)) => (c1, Err(message)),
        }
    } else {
        expression_statement(t, o, c)
    }
}

/// An expression and the semicolon that makes it a statement.
pub open spec fn expression_statement(t: Seq<Token>, o: usize, c: Cursor) -> (Cursor, Read<StmtView>)
    decreases remaining(t, c), 45nat,
{
    match expression(t, o, c) {
        (c1, Ok(value)) => match consume(t, c1, TokenType::Semicolon, "Expect ';' after value."@) {
            (c2, Ok(_)) => (c2, Ok(StmtView::Expression { expression: value })),
            (c2, Err(message)) => (c2, Err(message)),
        },
        (c1, Err(message)) => (c1, Err(message)),
    }
}

/// `print`, after the keyword.
pub open spec fn print_statement(t: Seq<Token>, o: usize, c: Cursor) -> (Cursor, Read<StmtView>)
    decreases remaining(t, c), 45nat,
{
    match expression(t, o, c) {
        (c1, Ok(value)) => match consume(t, c1, TokenType::Semicolon, "Expect ';' after value."@) {
            (c2, Ok(_)) => (c2, Ok(StmtView::Print { expression: value })),
            (c2, Err(message)) => (c2, Err(message)),
        },
        (c1, Err(message)) => (c1, Err(message)),
    }
}

/// `return`, after the keyword: with a value, or with nil where a
/// semicolon follows at once.
pub open spec fn return_statement(t: Seq<Token>, o: usize, c: Cursor, keyword: Token) -> (
    Cursor,
    Read<StmtView>,
)
    decreases remaining(t, c), 45nat,
{
    let valued = if check(t, c, TokenType::Semicolon) {
        (c, Ok(nothing()))
    } else {
        expression(t, o, c)
    };
    match valued {
        (c1, Ok(value)) => match consume(
            t,
            c1,
            TokenType::Semicolon,
            "Expect ';' after return value."@,
        ) {
            (c2, Ok(_)) => (c2, Ok(StmtView::Return { keyword, value })),
            (c2, Err(message)) => (c2, Err(message)),
        },
        (c1, Err(message)) => (c1, Err(message)),
    }
}

/// `var`, after the keyword: a name, and an initialiser or nil in its
/// place.
pub open spec fn var_declaration(t: Seq<Token>, o: usize, c: Cursor) -> (Cursor, Read<StmtView>)
    decreases remaining(t, c), 45nat,
{
    match consume(t, c, TokenType::Identifier, "Expect variable name."@) {
        (c1, Ok(name)) => {
            let initialised = if check(t, c1, TokenType::Equal) && c.pos <= c1.pos {
                expression(t, o, step(c1))
            } else {
                (c1, Ok(nothing()))
            };
            match initialised {
                (c2, Ok(initializer)) => match consume(
                    t,
                    c2,
                    TokenType::Semicolon,
                    "Expect ';' after variable declaration."@,
                ) {
                    (c3, Ok(_)) => (c3, Ok(StmtView::Var { name, initializer })),
                    (c3, Err(message)) => (c3, Err(message)),
                },
                (c2, Err(message)) => (c2, Err(message)),
            }
        },
        (c1, Err(message)) => (c1, Err(message)),
    }
}

/// `while`, after the keyword.
pub open spec fn while_statement(t: Seq<Token>, o: usize, c: Cursor) -> (Cursor, Read<StmtView>)
    decreases remaining(t, c), 51nat,
{
    match consume(t, c, TokenType::LeftParen, "Expect '(' after 'while'."@) {
        (c1, Ok(_)) => match expression(t, o, forward(t, c1, c.pos)) {
            (c2, Ok(condition)) => match consume(
                t,
                c2,
                TokenType::RightParen,
                "Expect ')' after condition."@,
            ) {
                (c3, Ok(_)) => match statement(t, o, forward(t, c3, c.pos)) {
                    (c4, Ok(body)) => (c4, Ok(StmtView::While { condition, body: Box::new(body) })),
                    (c4, Err(message)) => (c4, Err(message)),
                },
                (c3, Err(message)) => (c3, Err(message)),
            },
            (c2, Err(message)) => (c2, Err(message)),
        },
        (c1, Err(message)) => (c1, Err(message)),
    }
}

/// `if`, after the keyword; an `else` belongs to the nearest `if`.
pub open spec fn if_statement(t: Seq<Token>, o: usize, c: Cursor) -> (Cursor, Read<StmtView>)
    decreases remaining(t, c), 51nat,
{
    match consume(t, c, TokenType::LeftParen, "Expect '(' after 'if'."@) {
        (c1, Ok(_)) => match expression(t, o, forward(t, c1, c.pos)) {
            (c2, Ok(condition)) => match consume(
                t,
                c2,
                TokenType::RightParen,
                "Expect ')' after if condition."@,
            ) {
                (c3, Ok(_)) => match statement(t, o, forward(t, c3, c.pos)) {
                    (c4, Ok(then_branch)) => if check(t, c4, TokenType::Else) && c.pos <= c4.pos {
                        match statement(t, o, step(c4)) {
                            (c5, Ok(other)) => (
                                c5,
                                Ok(
                                    StmtView::If {
                                        condition,
                                        then_branch: Box::new(then_branch),
                                        else_branch: Some(Box::new(other)),
                                    },
                                ),
                            ),
                            (c5, Err(message)) => (c5, Err(message)),
                        }
                    } else {
                        (
                            c4,
                            Ok(
                                StmtView::If {
                                    condition,
                                    then_branch: Box::new(then_branch),
                                    else_branch: None,
                                },
                            ),
                        )
                    },
                    (c4, Err(message)) => (c4, Err(message)),
                },
                (c3, Err(message)) => (c3, Err(message)),
            },
            (c2, Err(message)) => (c2, Err(message)),
        },
        (c1, Err(message)) => (c1, Err(message)),
    }
}

/// The initialiser of a `for` loop: none, a declaration of a variable or
/// an expression statement.
pub open spec fn for_initializer(t: Seq<Token>, o: usize, c: Cursor) -> (
    Cursor,
    Read<Option<StmtView>>,
)
    decreases remaining(t, c), 52nat,
{
    if check(t, c, TokenType::Semicolon) {
        (step(c), Ok(None))
    } else {
        let read = if check(t, c, TokenType::Var) {
            var_declaration(t, o, step(c))
        } else {
            expression_statement(t, o, c)
        };
        match read {
            (c1, Ok(first)) => (c1, Ok(Some(first))),
            (c1, Err(message)) => (c1, Err(message)),
        }
    }
}

/// `for`, after the keyword: the loop is read and written with the other
/// statements, as [`desugar_for`] says.
pub open spec fn for_statement(t: Seq<Token>, o: usize, c: Cursor) -> (Cursor, Read<StmtView>)
    decreases remaining(t, c), 53nat,
{
    match consume(t, c, TokenType::LeftParen, "Expect '(' after 'for'."@) {
        (c1, Ok(_)) => match for_initializer(t, o, forward(t, c1, c.pos)) {
            (c2, Ok(initializer)) => {
                let conditioned = if check(t, c2, TokenType::Semicolon) {
                    (c2, Ok(always()))
                } else {
                    expression(t, o, forward(t, c2, c.pos))
                };
                match conditioned {
                    (c3, Ok(condition)) => match consume(
                        t,
                        c3,
                        TokenType::Semicolon,
                        "Expect ';' after loop condition."@,
                    ) {
                        (c4, Ok(_)) => {
                            let incremented = if check(t, c4, TokenType::RightParen) {
                                (c4, Ok(None))
                            } else {
                                match expression(t, o, forward(t, c4, c.pos)) {
                                    (c5, Ok(increment)) => (c5, Ok(Some(increment))),
                                    (c5, Err(message)) => (c5, Err(message)),
                                }
                            };
                            match incremented {
                                (c5, Ok(increment)) => match consume(
                                    t,
                                    c5,
                                    TokenType::RightParen,
                                    "Expect ')' after for clauses."@,
                                ) {
                                    (c6, Ok(_)) => match statement(t, o, forward(t, c6, c.pos)) {
                                        (c7, Ok(body)) => (
                                            c7,
                                            Ok(desugar_for(initializer, condition, increment, body)),
                                        ),
                                        (c7, Err(message)) => (c7, Err(message)),
                                    },
                                    (c6, Err(message)) => (c6, Err(message)),
                                },
                                (c5, Err(message)) => (c5, Err(message)),
                            }
                        },
                        (c4, Err(message)) => (c4, Err(message)),
                    },
                    (c3, Err(message)) => (c3, Err(message)),
                }
            },
            (c2, Err(message)) => (c2, Err(message)),
        },
        (c1, Err(message)) => (c1, Err(message)),
    }
}

/// The declarations of a block after those in `done`, and its closing
/// brace.
pub open spec fn block(t: Seq<Token>, o: usize, c: Cursor, done: Seq<StmtView>) -> (
    Cursor,
    Read<Seq<StmtView>>,
)
    decreases remaining(t, c), 56nat,
{
    if !check(t, c, TokenType::RightBrace) && !at_end(t, c) {
        match declaration(t, o, c) {
            (c1, Ok(next)) => block(t, o, forward(t, c1, c.pos + 1), done.push(next)),
            (c1, Err(message)) => (c1, Err(message)),
        }
    } else {
        match consume(t, c, TokenType::RightBrace, "Expect '}' after block."@) {
            (c1, Ok(_)) => (c1, Ok(done)),
            (c1, Err(message)) => (c1, Err(message)),
        }
    }
}

/// The parameters of a function after those in `done`, with commas between
/// them. More than 255 are an error.
pub open spec fn parameters(t: Seq<Token>, c: Cursor, done: Seq<Token>) -> (Cursor, Read<Seq<Token>>)
    decreases remaining(t, c),
{
    let read = if !check(t, c, TokenType::RightParen) {
        if done.len() >= 255 {
            (
                complain(t, c, c.pos, "Cannot have more than 255 parameters."@),
                Err("Cannot have more than 255 parameters."@),
            )
        } else {
            match consume(t, c, TokenType::Identifier, "Expect parameter name."@) {
                (c1, Ok(name)) => (c1, Ok(done.push(name))),
                (c1, Err(message)) => (c1, Err(message)),
            }
        }
    } else {
        (c, Ok(done))
    };
    match read {
        (c1, Ok(list)) => if check(t, c1, TokenType::Comma) && c1.pos >= c.pos {
            parameters(t, step(c1), list)
        } else {
            (c1, Ok(list))
        },
        (c1, Err(message)) => (c1, Err(message)),
    }
}

/// A function or method, after the keyword of a function: a name, the
/// parameters in parentheses, and a block. `kind` says in the messages
/// which of the two it is.
pub open spec fn function(t: Seq<Token>, o: usize, c: Cursor, kind: Seq<char>) -> (
    Cursor,
    Read<FunctionView>,
)
    decreases remaining(t, c), 57nat,
{
    match consume(t, c, TokenType::Identifier, "Expect "@ + kind + " name."@) {
        (c1, Ok(name)) => match consume(
            t,
            c1,
            TokenType::LeftParen,
            "Expect '(' after "@ + kind + " name."@,
        ) {
            (c2, Ok(_)) => match parameters(t, c2, Seq::empty()) {
                (c3, Ok(params)) => match consume(
                    t,
                    c3,
                    TokenType::RightParen,
                    "Expect ')' after parameters."@,
                ) {
                    (c4, Ok(_)) => match consume(
                        t,
                        c4,
                        TokenType::LeftBrace,
                        "Expect '{' before "@ + kind + " body."@,
                    ) {
                        (c5, Ok(_)) => match block(t, o, forward(t, c5, c.pos), Seq::empty()) {
                            (c6, Ok(body)) => (c6, Ok(FunctionView { name, params, body })),
                            (c6, Err(message)) => (c6, Err(message)),
                        },
                        (c5, Err(message)) => (c5, Err(message)),
                    },
                    (c4, Err(message)) => (c4, Err(message)),
                },
                (c3, Err(message)) => (c3, Err(message)),
            },
            (c2, Err(message)) => (c2, Err(message)),
        },
        (c1, Err(message)) => (c1, Err(message)),
    }
}

/// The methods of a class after those in `done`, up to the closing brace
/// or the end of input.
pub open spec fn methods(t: Seq<Token>, o: usize, c: Cursor, done: Seq<FunctionView>) -> (
    Cursor,
    Read<Seq<FunctionView>>,
)
    decreases remaining(t, c), 58nat,
{
    if !check(t, c, TokenType::RightBrace) && !at_end(t, c) {
        match function(t, o, c, "method"@) {
            (c1, Ok(next)) => methods(t, o, forward(t, c1, c.pos + 1), done.push(next)),
            (c1, Err(message)) => (c1, Err(message)),
        }
    } else {
        (c, Ok(done))
    }
}

/// The class that a class extends, where `<` and its name follow the
/// name of the class.
pub open spec fn heritage(t: Seq<Token>, o: usize, c: Cursor) -> (Cursor, Read<Option<ExprView>>) {
    if check(t, c, TokenType::Less) {
        match consume(t, step(c), TokenType::Identifier, "Expect superclass name."@) {
            (c1, Ok(name)) => (
                c1,
                Ok(Some(ExprView::Variable { name, id: identifier(o, c.pos + 1) })),
            ),
            (c1, Err(message)) => (c1, Err(message)),
        }
    } else {
        (c, Ok(None))
    }
}

/// A class, after the keyword: a name, the class it extends where it names
/// one, and the methods in braces.
pub open spec fn class_declaration(t: Seq<Token>, o: usize, c: Cursor) -> (Cursor, Read<StmtView>)
    decreases remaining(t, c), 59nat,
{
    match consume(t, c, TokenType::Identifier, "Expect class name."@) {
        (c1, Ok(name)) => match heritage(t, o, c1) {
            (c2, Ok(superclass)) => match consume(
                t,
                c2,
                TokenType::LeftBrace,
                "Expect '{' before class body."@,
            ) {
                (c3, Ok(_)) => match methods(t, o, forward(t, c3, c.pos), Seq::empty()) {
                    (c4, Ok(list)) => match consume(
                        t,
                        c4,
                        TokenType::RightBrace,
                        "Expect '}' after class body."@,
                    ) {
                        (c5, Ok(_)) => (c5, Ok(StmtView::Class { name, superclass, methods: list })),
                        (c5, Err(message)) => (c5, Err(message)),
                    },
                    (c4, Err(message)) => (c4, Err(message)),
                },
                (c3, Err(message)) => (c3, Err(message)),
            },
            (c2, Err(message)) => (c2, Err(message)),
        },
        (c1, Err(message)) => (c1, Err(message)),
    }
}

/// The declarations of a program after those in `done`, up to the end of
/// input. The first error stops the parser.
pub open spec fn program(t: Seq<Token>, o: usize, c: Cursor, done: Seq<StmtView>) -> (
    Cursor,
    Read<Seq<StmtView>>,
)
    decreases remaining(t, c), 60nat,
{
    if !at_end(t, c) {
        match declaration(t, o, c) {
            (c1, Ok(next)) => program(t, o, forward(t, c1, c.pos + 1), done.push(next)),
            (c1, Err(message)) => (c1, Err(message)),
        }
    } else {
        (c, Ok(done))
    }
}

/// The second cursor stands at the first or after it, and within the list.
pub open spec fn within(t: Seq<Token>, c: Cursor, c1: Cursor) -> bool {
    c.pos <= c1.pos <= t.len()
}

/// No function of the grammar yields a cursor before the one it read
/// from or past the end of the list, and a declaration, a statement or a
/// function that is read leaves the cursor after the place it started at:
/// [`forward`] and the comparisons of cursors change nothing of what the
/// functions mean.
pub proof fn law_expression_advances(t: Seq<Token>, o: usize, c: Cursor)
    requires
        c.pos <= t.len(),
    ensures
        within(t, c, expression(t, o, c).0),
    decreases remaining(t, c), 22nat,
{
    law_assignment_advances(t, o, c);
}

/// As [`law_expression_advances`], of an assignment.
pub proof fn law_assignment_advances(t: Seq<Token>, o: usize, c: Cursor)
    requires
        c.pos <= t.len(),
    ensures
        within(t, c, assignment(t, o, c).0),
    decreases remaining(t, c), 21nat,
{
    law_binary_advances(t, o, c, 0);
    let c1 = binary(t, o, c, 0).0;
    if binary(t, o, c, 0).1 is Ok && check(t, c1, TokenType::Equal) {
        law_assignment_advances(t, o, step(c1));
    }
}

/// As [`law_expression_advances`], of the binary operators.
pub proof fn law_binary_advances(t: Seq<Token>, o: usize, c: Cursor, level: nat)
    requires
        c.pos <= t.len(),
    ensures
        within(t, c, binary(t, o, c, level).0),
    decreases remaining(t, c), binary_rank(level),
{
    if level >= 6 {
        law_unary_advances(t, o, c);
    } else {
        law_binary_advances(t, o, c, level + 1);
        match binary(t, o, c, level + 1) {
            (c1, Ok(left)) => {
                law_binary_tail_advances(t, o, c1, level, left);
            },
            _ => {},
        }
    }
}

/// As [`law_expression_advances`], of the operators after a left operand.
pub proof fn law_binary_tail_advances(
    t: Seq<Token>,
    o: usize,
    c: Cursor,
    level: nat,
    left: ExprView,
)
    requires
        c.pos <= t.len(),
    ensures
        within(t, c, binary_tail(t, o, c, level, left).0),
    decreases remaining(t, c), binary_rank(level) - 1,
{
    if level < 6 && !at_end(t, c) && operator_of(level, kind_at(t, c.pos)) {
        law_binary_advances(t, o, step(c), level + 1);
        match binary(t, o, step(c), level + 1) {
            (c1, Ok(right)) => {
                law_binary_tail_advances(
                    t,
                    o,
                    c1,
                    level,
                    join(level, left, t[c.pos as int], right),
                );
            },
            _ => {},
        }
    }
}

/// As [`law_expression_advances`], of a unary operator.
pub proof fn law_unary_advances(t: Seq<Token>, o: usize, c: Cursor)
    requires
        c.pos <= t.len(),
    ensures
        within(t, c, unary(t, o, c).0),
    decreases remaining(t, c), 3nat,
{
    if check(t, c, TokenType::Bang) || check(t, c, TokenType::Minus) {
        law_unary_advances(t, o, step(c));
    } else {
        law_call_advances(t, o, c);
    }
}

/// As [`law_expression_advances`], of a call.
pub proof fn law_call_advances(t: Seq<Token>, o: usize, c: Cursor)
    requires
        c.pos <= t.len(),
    ensures
        within(t, c, call(t, o, c).0),
    decreases remaining(t, c), 2nat,
{
    law_primary_advances(t, o, c);
    match primary(t, o, c) {
        (c1, Ok(target)) => {
            law_call_tail_advances(t, o, c1, target);
        },
        _ => {},
    }
}

/// As [`law_expression_advances`], of what follows a primary expression.
pub proof fn law_call_tail_advances(t: Seq<Token>, o: usize, c: Cursor, target: ExprView)
    requires
        c.pos <= t.len(),
    ensures
        within(t, c, call_tail(t, o, c, target).0),
    decreases remaining(t, c), 1nat,
{
    if check(t, c, TokenType::LeftParen) {
        law_finish_call_advances(t, o, step(c), target);
        match finish_call(t, o, step(c), target) {
            (c1, Ok(made)) => {
                law_call_tail_advances(t, o, c1, made);
            },
            _ => {},
        }
    } else if check(t, c, TokenType::Dot) {
        match consume(t, step(c), TokenType::Identifier, "Expect property name after '.'."@) {
            (c1, Ok(name)) => {
                law_call_tail_advances(
                    t,
                    o,
                    c1,
                    ExprView::Get { object: Box::new(target), name },
                );
            },
            _ => {},
        }
    }
}

/// As [`law_expression_advances`], of the arguments of a call.
pub proof fn law_finish_call_advances(t: Seq<Token>, o: usize, c: Cursor, callee: ExprView)
    requires
        c.pos <= t.len(),
    ensures
        within(t, c, finish_call(t, o, c, callee).0),
    decreases remaining(t, c), 24nat,
{
    if !check(t, c, TokenType::RightParen) {
        law_arguments_advance(t, o, c, Seq::empty());
    }
}

/// As [`law_expression_advances`], of a list of arguments.
pub proof fn law_arguments_advance(t: Seq<Token>, o: usize, c: Cursor, done: Seq<ExprView>)
    requires
        c.pos <= t.len(),
    ensures
        within(t, c, arguments(t, o, c, done).0),
    decreases remaining(t, c), 23nat,
{
    let warned = if done.len() >= 255 {
        complain(t, c, c.pos, "Cannot have more than 255 arguments."@)
    } else {
        c
    };
    law_expression_advances(t, o, warned);
    match expression(t, o, warned) {
        (c1, Ok(argument)) => {
            if check(t, c1, TokenType::Comma) {
                law_arguments_advance(t, o, step(c1), done.push(argument));
            }
        },
        _ => {},
    }
}

/// As [`law_expression_advances`], of a primary expression.
pub proof fn law_primary_advances(t: Seq<Token>, o: usize, c: Cursor)
    requires
        c.pos <= t.len(),
    ensures
        within(t, c, primary(t, o, c).0),
    decreases remaining(t, c), 0nat,
{
    if check(t, c, TokenType::LeftParen) {
        law_expression_advances(t, o, step(c));
    }
}

/// As [`law_expression_advances`], of a declaration.
pub proof fn law_declaration_advances(t: Seq<Token>, o: usize, c: Cursor)
    requires
        c.pos <= t.len(),
    ensures
        within(t, c, declaration(t, o, c).0),
        declaration(t, o, c).1 is Ok ==> c.pos < declaration(t, o, c).0.pos,
    decreases remaining(t, c), 55nat,
{
    if check(t, c, TokenType::Var) {
        law_var_declaration_advances(t, o, step(c));
    } else if check(t, c, TokenType::Class) {
        law_class_declaration_advances(t, o, step(c));
    } else if check(t, c, TokenType::Fun) {
        law_function_advances(t, o, step(c), "function"@);
    } else {
        law_statement_advances(t, o, c);
    }
}

/// As [`law_expression_advances`], of a statement.
pub proof fn law_statement_advances(t: Seq<Token>, o: usize, c: Cursor)
    requires
        c.pos <= t.len(),
    ensures
        within(t, c, statement(t, o, c).0),
        statement(t, o, c).1 is Ok ==> c.pos < statement(t, o, c).0.pos,
    decreases remaining(t, c), 50nat,
{
    if check(t, c, TokenType::For) {
        law_for_statement_advances(t, o, step(c));
    } else if check(t, c, TokenType::If) {
        law_if_statement_advances(t, o, step(c));
    } else if check(t, c, TokenType::Print) {
        law_expression_advances(t, o, step(c));
    } else if check(t, c, TokenType::Return) {
        if !check(t, step(c), TokenType::Semicolon) {
            law_expression_advances(t, o, step(c));
        }
    } else if check(t, c, TokenType::While) {
        law_while_statement_advances(t, o, step(c));
    } else if check(t, c, TokenType::LeftBrace) {
        law_block_advances(t, o, step(c), Seq::empty());
    } else {
        law_expression_advances(t, o, c);
    }
}

/// As [`law_expression_advances`], of a declaration of a variable.
pub proof fn law_var_declaration_advances(t: Seq<Token>, o: usize, c: Cursor)
    requires
        c.pos <= t.len(),
    ensures
        within(t, c, var_declaration(t, o, c).0),
    decreases remaining(t, c), 45nat,
{
    match consume(t, c, TokenType::Identifier, "Expect variable name."@) {
        (c1, Ok(name)) => {
            if check(t, c1, TokenType::Equal) {
                law_expression_advances(t, o, step(c1));
            }
        },
        _ => {},
    }
}

/// As [`law_expression_advances`], of a `while` loop.
pub proof fn law_while_statement_advances(t: Seq<Token>, o: usize, c: Cursor)
    requires
        c.pos <= t.len(),
    ensures
        within(t, c, while_statement(t, o, c).0),
    decreases remaining(t, c), 51nat,
{
    match consume(t, c, TokenType::LeftParen, "Expect '(' after 'while'."@) {
        (c1, Ok(_)) => {
            law_expression_advances(t, o, c1);
            match expression(t, o, c1) {
                (c2, Ok(condition)) => match consume(
                    t,
                    c2,
                    TokenType::RightParen,
                    "Expect ')' after condition."@,
                ) {
                    (c3, Ok(_)) => {
                        law_statement_advances(t, o, c3);
                    },
                    _ => {},
                },
                _ => {},
            }
        },
        _ => {},
    }
}

/// As [`law_expression_advances`], of an `if`.
pub proof fn law_if_statement_advances(t: Seq<Token>, o: usize, c: Cursor)
    requires
        c.pos <= t.len(),
    ensures
        within(t, c, if_statement(t, o, c).0),
    decreases remaining(t, c), 51nat,
{
    match consume(t, c, TokenType::LeftParen, "Expect '(' after 'if'."@) {
        (c1, Ok(_)) => {
            law_expression_advances(t, o, c1);
            match expression(t, o, c1) {
                (c2, Ok(condition)) => match consume(
                    t,
                    c2,
                    TokenType::RightParen,
                    "Expect ')' after if condition."@,
                ) {
                    (c3, Ok(_)) => {
                        law_statement_advances(t, o, c3);
                        match statement(t, o, c3) {
                            (c4, Ok(then_branch)) => {
                                if check(t, c4, TokenType::Else) {
                                    law_statement_advances(t, o, step(c4));
                                }
                            },
                            _ => {},
                        }
                    },
                    _ => {},
                },
                _ => {},
            }
        },
        _ => {},
    }
}

/// As [`law_expression_advances`], of the initialiser of a `for` loop.
pub proof fn law_for_initializer_advances(t: Seq<Token>, o: usize, c: Cursor)
    requires
        c.pos <= t.len(),
    ensures
        within(t, c, for_initializer(t, o, c).0),
    decreases remaining(t, c), 52nat,
{
    if !check(t, c, TokenType::Semicolon) {
        if check(t, c, TokenType::Var) {
            law_var_declaration_advances(t, o, step(c));
        } else {
            law_expression_advances(t, o, c);
        }
    }
}

/// As [`law_expression_advances`], of a `for` loop.
pub proof fn law_for_statement_advances(t: Seq<Token>, o: usize, c: Cursor)
    requires
        c.pos <= t.len(),
    ensures
        within(t, c, for_statement(t, o, c).0),
    decreases remaining(t, c), 53nat,
{
    match consume(t, c, TokenType::LeftParen, "Expect '(' after 'for'."@) {
        (c1, Ok(_)) => {
            law_for_initializer_advances(t, o, c1);
            match for_initializer(t, o, c1) {
                (c2, Ok(initializer)) => {
                    if !check(t, c2, TokenType::Semicolon) {
                        law_expression_advances(t, o, c2);
                    }
                    let c3 = if check(t, c2, TokenType::Semicolon) {
                        c2
                    } else {
                        expression(t, o, c2).0
                    };
                    let c4 = consume(t, c3, TokenType::Semicolon, "Expect ';' after loop condition."@).0;
                    if !check(t, c4, TokenType::RightParen) {
                        law_expression_advances(t, o, c4);
                    }
                    let c5 = if check(t, c4, TokenType::RightParen) {
                        c4
                    } else {
                        expression(t, o, c4).0
                    };
                    let c6 = consume(t, c5, TokenType::RightParen, "Expect ')' after for clauses."@).0;
                    law_statement_advances(t, o, c6);
                },
                _ => {},
            }
        },
        _ => {},
    }
}

/// As [`law_expression_advances`], of a block.
pub proof fn law_block_advances(t: Seq<Token>, o: usize, c: Cursor, done: Seq<StmtView>)
    requires
        c.pos <= t.len(),
    ensures
        within(t, c, block(t, o, c, done).0),
    decreases remaining(t, c), 56nat,
{
    if !check(t, c, TokenType::RightBrace) && !at_end(t, c) {
        law_declaration_advances(t, o, c);
        match declaration(t, o, c) {
            (c1, Ok(next)) => {
                law_block_advances(t, o, forward(t, c1, c.pos + 1), done.push(next));
            },
            _ => {},
        }
    }
}

/// As [`law_expression_advances`], of the parameters of a function.
pub proof fn law_parameters_advance(t: Seq<Token>, c: Cursor, done: Seq<Token>)
    requires
        c.pos <= t.len(),
    ensures
        within(t, c, parameters(t, c, done).0),
    decreases remaining(t, c),
{
    let read = if !check(t, c, TokenType::RightParen) {
        if done.len() >= 255 {
            (
                complain(t, c, c.pos, "Cannot have more than 255 parameters."@),
                Err::<Seq<Token>, Seq<char>>("Cannot have more than 255 parameters."@),
            )
        } else {
            match consume(t, c, TokenType::Identifier, "Expect parameter name."@) {
                (c1, Ok(name)) => (c1, Ok(done.push(name))),
                (c1, Err(message)) => (c1, Err(message)),
            }
        }
    } else {
        (c, Ok(done))
    };
    match read {
        (c1, Ok(list)) => {
            if check(t, c1, TokenType::Comma) && c1.pos >= c.pos {
                law_parameters_advance(t, step(c1), list);
            }
        },
        _ => {},
    }
}

/// As [`law_expression_advances`], of a function.
pub proof fn law_function_advances(t: Seq<Token>, o: usize, c: Cursor, kind: Seq<char>)
    requires
        c.pos <= t.len(),
    ensures
        within(t, c, function(t, o, c, kind).0),
        function(t, o, c, kind).1 is Ok ==> c.pos < function(t, o, c, kind).0.pos,
    decreases remaining(t, c), 57nat,
{
    let c1 = consume(t, c, TokenType::Identifier, "Expect "@ + kind + " name."@).0;
    let c2 = consume(t, c1, TokenType::LeftParen, "Expect '(' after "@ + kind + " name."@).0;
    law_parameters_advance(t, c2, Seq::empty());
    let c3 = parameters(t, c2, Seq::empty()).0;
    let c4 = consume(t, c3, TokenType::RightParen, "Expect ')' after parameters."@).0;
    let c5 = consume(t, c4, TokenType::LeftBrace, "Expect '{' before "@ + kind + " body."@).0;
    law_block_advances(t, o, c5, Seq::empty());
}

/// As [`law_expression_advances`], of the methods of a class.
pub proof fn law_methods_advance(t: Seq<Token>, o: usize, c: Cursor, done: Seq<FunctionView>)
    requires
        c.pos <= t.len(),
    ensures
        within(t, c, methods(t, o, c, done).0),
    decreases remaining(t, c), 58nat,
{
    if !check(t, c, TokenType::RightBrace) && !at_end(t, c) {
        law_function_advances(t, o, c, "method"@);
        match function(t, o, c, "method"@) {
            (c1, Ok(next)) => {
                law_methods_advance(t, o, forward(t, c1, c.pos + 1), done.push(next));
            },
            _ => {},
        }
    }
}

/// As [`law_expression_advances`], of a class.
pub proof fn law_class_declaration_advances(t: Seq<Token>, o: usize, c: Cursor)
    requires
        c.pos <= t.len(),
    ensures
        within(t, c, class_declaration(t, o, c).0),
    decreases remaining(t, c), 59nat,
{
    let c1 = consume(t, c, TokenType::Identifier, "Expect class name."@).0;
    let c2 = heritage(t, o, c1).0;
    let c3 = consume(t, c2, TokenType::LeftBrace, "Expect '{' before class body."@).0;
    law_methods_advance(t, o, c3, Seq::empty());
}

/// As [`law_expression_advances`], of a program.
pub proof fn law_program_advances(t: Seq<Token>, o: usize, c: Cursor, done: Seq<StmtView>)
    requires
        c.pos <= t.len(),
    ensures
        within(t, c, program(t, o, c, done).0),
    decreases remaining(t, c), 60nat,
{
    if !at_end(t, c) {
        law_declaration_advances(t, o, c);
        match declaration(t, o, c) {
            (c1, Ok(next)) => {
                law_program_advances(t, o, forward(t, c1, c.pos + 1), done.push(next));
            },
            _ => {},
        }
    }
}

} // verus!
