//! The parser: from tokens to the tree of a program, by recursive descent,
//! as [`crate::grammar`] states it.

use vstd::prelude::*;
use vstd::string::*;
use std::rc::Rc;
use crate::ast::{
    expr_view,
    expr_views,
    function_view,
    function_views,
    program_view,
    push_expr,
    push_function,
    push_stmt,
    stmt_view,
    ExprView,
    FunctionView,
    StmtView,
};
use crate::error::{parser_error, texts};
use crate::expr::Expr;
use crate::grammar::{
    arguments,
    assignment,
    at_end,
    binary,
    binary_rank,
    binary_tail,
    block,
    call,
    call_tail,
    check,
    class_declaration,
    complain,
    consume,
    declaration,
    desugar_for,
    expression,
    expression_statement,
    finish_call,
    for_initializer,
    for_statement,
    function,
    heritage,
    identifier,
    if_statement,
    methods,
    operator_of,
    parameters,
    primary,
    print_statement,
    program,
    return_statement,
    statement,
    step,
    unary,
    var_declaration,
    while_statement,
    Cursor,
    Read,
};
use crate::stmt::{FunctionDecl, Stmt};
use crate::token::{Literal, Token};
use crate::token_type::TokenType;

verus! {

/// The error that stopped the parser, with its message.
#[derive(Debug)]
pub struct ParserError(pub String);

/// A list of tokens ends with the token of the end of input.
pub open spec fn well_ended(tokens: Seq<Token>) -> bool {
    tokens.len() > 0 && tokens.last().token_type == TokenType::EOF
}

/// The parser of one list of tokens.
pub struct Parser {
    tokens: Vec<Token>,
    current: usize,
    origin: usize,
    reports: Vec<String>,
}

/// An expression read is the one that was meant.
pub open spec fn is_expr(result: Result<Expr, ParserError>, meant: Read<ExprView>) -> bool {
    match meant {
        Ok(view) => result matches Ok(e) && expr_view(e) == view,
        Err(message) => result matches Err(error) && error.0@ == message,
    }
}

/// A statement read is the one that was meant.
pub open spec fn is_stmt(result: Result<Stmt, ParserError>, meant: Read<StmtView>) -> bool {
    match meant {
        Ok(view) => result matches Ok(s) && stmt_view(s) == view,
        Err(message) => result matches Err(error) && error.0@ == message,
    }
}

/// A list of statements read is the one that was meant.
pub open spec fn is_stmts(result: Result<Vec<Stmt>, ParserError>, meant: Read<Seq<StmtView>>) -> bool {
    match meant {
        Ok(views) => result matches Ok(list) && program_view(list) == views,
        Err(message) => result matches Err(error) && error.0@ == message,
    }
}

/// A function declaration read is the one that was meant.
pub open spec fn is_function(result: Result<FunctionDecl, ParserError>, meant: Read<FunctionView>) -> bool {
    match meant {
        Ok(view) => result matches Ok(declaration) && function_view(declaration) == view,
        Err(message) => result matches Err(error) && error.0@ == message,
    }
}

/// A token read is the one that was meant.
pub open spec fn is_token(result: Result<Token, ParserError>, meant: Read<Token>) -> bool {
    match meant {
        Ok(token) => result matches Ok(got) && got == token,
        Err(message) => result matches Err(error) && error.0@ == message,
    }
}

/// Whether a token of the given kind is an operator of the given level.
fn is_operator(level: u8, kind: TokenType) -> (answer: bool)
    ensures
        answer == operator_of(level as nat, kind),
{
    if level == 0 {
        kind == TokenType::Or
    } else if level == 1 {
        kind == TokenType::And
    } else if level == 2 {
        kind == TokenType::BangEqual || kind == TokenType::EqualEqual
    } else if level == 3 {
        kind == TokenType::Greater || kind == TokenType::GreaterEqual || kind == TokenType::Less
            || kind == TokenType::LessEqual
    } else if level == 4 {
        kind == TokenType::Minus || kind == TokenType::Plus
    } else {
        kind == TokenType::Slash || kind == TokenType::Star
    }
}

/// The message of a missing part of a function or method.
fn kind_message(before: &str, kind: &str, after: &str) -> (message: String)
    ensures
        message@ == before@ + kind@ + after@,
{
    let mut message = String::from_str(before);
    message.append(kind);
    message.append(after);
    message
}

impl Parser {
    /// The tokens that the parser reads.
    pub closed spec fn tokens(&self) -> Seq<Token> {
        self.tokens@
    }

    /// The number from which the identifiers of expressions are counted.
    pub closed spec fn origin(&self) -> usize {
        self.origin
    }

    /// Where the parser stands, and what it has reported.
    pub closed spec fn cursor(&self) -> Cursor {
        Cursor { pos: self.current as nat, reports: texts(self.reports@) }
    }

    /// The parser stands within a list of tokens that ends with the token
    /// of the end of input.
    pub closed spec fn wf(&self) -> bool {
        well_ended(self.tokens@) && self.current < self.tokens@.len()
    }

    /// What holds between a parser before and after it reads: it stands
    /// within the same tokens, and not before the place it stood at.
    pub open spec fn kept(&self, before: &Parser) -> bool {
        &&& self.wf()
        &&& self.tokens() == before.tokens()
        &&& self.origin() == before.origin()
        &&& before.cursor().pos <= self.cursor().pos
    }

    /// A parser at the start of the tokens, which counts the identifiers of
    /// expressions from zero.
    pub fn new(tokens: Vec<Token>) -> (parser: Parser)
        requires
            well_ended(tokens@),
        ensures
            parser.wf(),
            parser.tokens() == tokens@,
            parser.origin() == 0,
            parser.cursor() == (Cursor { pos: 0, reports: Seq::empty() }),
    {
        Parser::with_origin(tokens, 0)
    }

    /// A parser at the start of the tokens, which counts the identifiers of
    /// expressions from `origin`: a session that parses one text after the
    /// other gives each an origin past the identifiers of the texts before.
    pub fn with_origin(tokens: Vec<Token>, origin: usize) -> (parser: Parser)
        requires
            well_ended(tokens@),
        ensures
            parser.wf(),
            parser.tokens() == tokens@,
            parser.origin() == origin,
            parser.cursor() == (Cursor { pos: 0, reports: Seq::empty() }),
    {
        let parser = Parser { tokens, current: 0, origin, reports: Vec::new() };
        assert(texts(parser.reports@) =~= Seq::empty());
        parser
    }

    /// The reports, one line each, of the errors found.
    pub fn reports(&self) -> (lines: &Vec<String>)
        ensures
            texts(lines@) == self.cursor().reports,
    {
        &self.reports
    }

    /// Reads a program: declarations up to the end of input. The first
    /// error stops the parser and is returned.
    #[verifier::loop_isolation(false)]
    pub fn parse(&mut self) -> (result: Result<Vec<Stmt>, ParserError>)
        requires
            old(self).wf(),
        ensures
            final(self).kept(old(self)),
            final(self).cursor() == program(
                old(self).tokens(),
                old(self).origin(),
                old(self).cursor(),
                Seq::empty(),
            ).0,
            is_stmts(
                result,
                program(old(self).tokens(), old(self).origin(), old(self).cursor(), Seq::empty()).1,
            ),
    {
        let ghost goal = program(self.tokens(), self.origin(), self.cursor(), Seq::empty());
        let mut statements: Vec<Stmt> = Vec::new();
        while !self.is_at_end()
            invariant
                self.kept(old(self)),
                program(self.tokens(), self.origin(), self.cursor(), program_view(statements))
                    == goal,
            decreases self.tokens@.len() - self.current,
        {
            match self.declaration() {
                Ok(next) => {
                    push_stmt(&mut statements, next);
                },
                Err(error) => {
                    return Err(error);
                },
            }
        }
        Ok(statements)
    }

    /// Whether the parser stands at the end of input.
    fn is_at_end(&self) -> (answer: bool)
        requires
            self.wf(),
        ensures
            answer == at_end(self.tokens(), self.cursor()),
    {
        self.tokens[self.current].token_type == TokenType::EOF
    }

    /// Whether the parser stands at a token of the given kind.
    fn check(&self, kind: TokenType) -> (answer: bool)
        requires
            self.wf(),
        ensures
            answer == check(self.tokens(), self.cursor(), kind),
    {
        !self.is_at_end() && self.tokens[self.current].token_type == kind
    }

    /// The token that the parser stands at.
    fn peek(&self) -> (token: Token)
        requires
            self.wf(),
        ensures
            token == self.tokens()[self.cursor().pos as int],
    {
        self.tokens[self.current].clone()
    }

    /// Steps over the token that the parser stands at, and returns it. The
    /// caller has seen that it is not the end of input.
    fn advance(&mut self) -> (token: Token)
        requires
            old(self).wf(),
            !at_end(old(self).tokens(), old(self).cursor()),
        ensures
            final(self).kept(old(self)),
            final(self).cursor() == step(old(self).cursor()),
            token == old(self).tokens()[old(self).cursor().pos as int],
    {
        let count = self.tokens.len();
        let token = self.tokens[self.current].clone();
        self.current = self.current + 1;
        token
    }

    /// The identifier of the expression whose name is the token at `pos`.
    fn id_at(&self, pos: usize) -> (id: usize)
        ensures
            id == identifier(self.origin(), pos as nat),
    {
        if pos <= usize::MAX - self.origin {
            self.origin + pos
        } else {
            usize::MAX
        }
    }

    /// Reports an error at a token.
    fn error(&mut self, at: usize, message: &str) -> (error: ParserError)
        requires
            old(self).wf(),
            at < old(self).tokens().len(),
        ensures
            final(self).kept(old(self)),
            final(self).cursor() == complain(
                old(self).tokens(),
                old(self).cursor(),
                at as nat,
                message@,
            ),
            error.0@ == message@,
    {
        let mut lines = parser_error(&self.tokens[at], message);
        let ghost before = self.reports@;
        let ghost added = lines@;
        self.reports.append(&mut lines);
        assert(texts(self.reports@) =~= texts(before) + texts(added));
        ParserError(String::from_str(message))
    }

    /// Reads a token of the given kind, or reports its absence.
    fn consume(&mut self, kind: TokenType, message: &str) -> (result: Result<Token, ParserError>)
        requires
            old(self).wf(),
        ensures
            final(self).kept(old(self)),
            final(self).cursor() == consume(
                old(self).tokens(),
                old(self).cursor(),
                kind,
                message@,
            ).0,
            is_token(result, consume(old(self).tokens(), old(self).cursor(), kind, message@).1),
    {
        if self.check(kind) {
            Ok(self.advance())
        } else {
            let at = self.current;
            Err(self.error(at, message))
        }
    }

    /// An expression.
    fn expression(&mut self) -> (result: Result<Expr, ParserError>)
        requires
            old(self).wf(),
        ensures
            final(self).kept(old(self)),
            final(self).cursor() == expression(
                old(self).tokens(),
                old(self).origin(),
                old(self).cursor(),
            ).0,
            is_expr(
                result,
                expression(old(self).tokens(), old(self).origin(), old(self).cursor()).1,
            ),
        decreases old(self).tokens@.len() - old(self).current, 22nat,
    {
        self.assignment()
    }

    /// An assignment, or an expression of the binary operators.
    fn assignment(&mut self) -> (result: Result<Expr, ParserError>)
        requires
            old(self).wf(),
        ensures
            final(self).kept(old(self)),
            final(self).cursor() == assignment(
                old(self).tokens(),
                old(self).origin(),
                old(self).cursor(),
            ).0,
            is_expr(
                result,
                assignment(old(self).tokens(), old(self).origin(), old(self).cursor()).1,
            ),
        decreases old(self).tokens@.len() - old(self).current, 21nat,
    {
        let target = self.binary(0)?;
        if self.check(TokenType::Equal) {
            let equals = self.current;
            let _ = self.advance();
            let value = self.assignment()?;
            match target {
                Expr::Variable { name, id } => Ok(Expr::Assign { name, value: Box::new(value), id }),
                Expr::Get { object, name } => Ok(
                    Expr::SetField { object, name, value: Box::new(value) },
                ),
                _ => Err(self.error(equals, "Invalid assignment target.")),
            }
        } else {
            Ok(target)
        }
    }

    /// An expression of the binary operators of the given level and the
    /// tighter ones.
    #[verifier::loop_isolation(false)]
    fn binary(&mut self, level: u8) -> (result: Result<Expr, ParserError>)
        requires
            old(self).wf(),
        ensures
            final(self).kept(old(self)),
            final(self).cursor() == binary(
                old(self).tokens(),
                old(self).origin(),
                old(self).cursor(),
                level as nat,
            ).0,
            is_expr(
                result,
                binary(old(self).tokens(), old(self).origin(), old(self).cursor(), level as nat).1,
            ),
        decreases old(self).tokens@.len() - old(self).current, binary_rank(level as nat),
    {
        if level >= 6 {
            return self.unary();
        }
        let mut left = self.binary(level + 1)?;
        let ghost goal = binary_tail(
            self.tokens(),
            self.origin(),
            self.cursor(),
            level as nat,
            expr_view(left),
        );
        while !self.is_at_end() && is_operator(level, self.tokens[self.current].token_type)
            invariant
                self.kept(old(self)),
                binary_tail(
                    self.tokens(),
                    self.origin(),
                    self.cursor(),
                    level as nat,
                    expr_view(left),
                ) == goal,
            decreases self.tokens@.len() - self.current,
        {
            let operator = self.advance();
            let right = self.binary(level + 1)?;
            left = if level < 2 {
                Expr::Logical { left: Box::new(left), operator, right: Box::new(right) }
            } else {
                Expr::Binary { left: Box::new(left), operator, right: Box::new(right) }
            };
        }
        Ok(left)
    }

    /// A unary operator before its operand, or a call.
    fn unary(&mut self) -> (result: Result<Expr, ParserError>)
        requires
            old(self).wf(),
        ensures
            final(self).kept(old(self)),
            final(self).cursor() == unary(
                old(self).tokens(),
                old(self).origin(),
                old(self).cursor(),
            ).0,
            is_expr(result, unary(old(self).tokens(), old(self).origin(), old(self).cursor()).1),
        decreases old(self).tokens@.len() - old(self).current, 3nat,
    {
        if self.check(TokenType::Bang) || self.check(TokenType::Minus) {
            let operator = self.advance();
            let right = self.unary()?;
            Ok(Expr::Unary { operator, right: Box::new(right) })
        } else {
            self.call()
        }
    }

    /// A primary expression and the calls and property reads that follow
    /// it.
    #[verifier::loop_isolation(false)]
    fn call(&mut self) -> (result: Result<Expr, ParserError>)
        requires
            old(self).wf(),
        ensures
            final(self).kept(old(self)),
            final(self).cursor() == call(
                old(self).tokens(),
                old(self).origin(),
                old(self).cursor(),
            ).0,
            is_expr(result, call(old(self).tokens(), old(self).origin(), old(self).cursor()).1),
        decreases old(self).tokens@.len() - old(self).current, 2nat,
    {
        let mut target = self.primary()?;
        let ghost goal = call_tail(self.tokens(), self.origin(), self.cursor(), expr_view(target));
        let mut more = true;
        while more
            invariant
                self.kept(old(self)),
                call_tail(self.tokens(), self.origin(), self.cursor(), expr_view(target)) == goal,
                !more ==> goal == (self.cursor(), Ok::<ExprView, Seq<char>>(expr_view(target))),
            decreases
                    self.tokens@.len() - self.current,
                    if more {
                        1nat
                    } else {
                        0nat
                    },
        {
            if self.check(TokenType::LeftParen) {
                let _ = self.advance();
                target = self.finish_call(target)?;
            } else if self.check(TokenType::Dot) {
                let _ = self.advance();
                let name = self.consume(TokenType::Identifier, "Expect property name after '.'.")?;
                target = Expr::Get { object: Box::new(target), name };
            } else {
                more = false;
            }
        }
        Ok(target)
    }

    /// The arguments of a call and its closing parenthesis.
    #[verifier::loop_isolation(false)]
    fn finish_call(&mut self, callee: Expr) -> (result: Result<Expr, ParserError>)
        requires
            old(self).wf(),
        ensures
            final(self).kept(old(self)),
            final(self).cursor() == finish_call(
                old(self).tokens(),
                old(self).origin(),
                old(self).cursor(),
                expr_view(callee),
            ).0,
            is_expr(
                result,
                finish_call(
                    old(self).tokens(),
                    old(self).origin(),
                    old(self).cursor(),
                    expr_view(callee),
                ).1,
            ),
        decreases old(self).tokens@.len() - old(self).current, 24nat,
    {
        let mut list: Vec<Expr> = Vec::new();
        if !self.check(TokenType::RightParen) {
            let ghost goal = arguments(self.tokens(), self.origin(), self.cursor(), Seq::empty());
            let mut more = true;
            while more
                invariant
                    self.kept(old(self)),
                    expr_views(list, list.len() as nat).len() == list.len(),
                    more ==> arguments(
                        self.tokens(),
                        self.origin(),
                        self.cursor(),
                        expr_views(list, list.len() as nat),
                    ) == goal,
                    !more ==> goal == (
                        self.cursor(),
                        Ok::<Seq<ExprView>, Seq<char>>(expr_views(list, list.len() as nat)),
                    ),
                decreases
                        self.tokens@.len() - self.current,
                        if more {
                            1nat
                        } else {
                            0nat
                        },
            {
                if list.len() >= 255 {
                    let at = self.current;
                    let _ = self.error(at, "Cannot have more than 255 arguments.");
                }
                let argument = self.expression()?;
                push_expr(&mut list, argument);
                if self.check(TokenType::Comma) {
                    let _ = self.advance();
                } else {
                    more = false;
                }
            }
        }
        let paren = self.consume(TokenType::RightParen, "Expect ')' after arguments.")?;
        Ok(Expr::Call { callee: Box::new(callee), paren, arguments: list })
    }

    /// A literal, `this`, a variable or an expression in parentheses.
    fn primary(&mut self) -> (result: Result<Expr, ParserError>)
        requires
            old(self).wf(),
        ensures
            final(self).kept(old(self)),
            final(self).cursor() == primary(
                old(self).tokens(),
                old(self).origin(),
                old(self).cursor(),
            ).0,
            is_expr(result, primary(old(self).tokens(), old(self).origin(), old(self).cursor()).1),
        decreases old(self).tokens@.len() - old(self).current, 0nat,
    {
        let at = self.current;
        if self.check(TokenType::False) {
            let _ = self.advance();
            Ok(Expr::Literal { value: Literal::Bool(false) })
        } else if self.check(TokenType::True) {
            let _ = self.advance();
            Ok(Expr::Literal { value: Literal::Bool(true) })
        } else if self.check(TokenType::Nil) {
            let _ = self.advance();
            Ok(Expr::Literal { value: Literal::Nil })
        } else if self.check(TokenType::Number) || self.check(TokenType::String) {
            let token = self.advance();
            Ok(Expr::Literal { value: token.literal })
        } else if self.check(TokenType::This) {
            let keyword = self.advance();
            Ok(Expr::This { keyword, id: self.id_at(at) })
        } else if self.check(TokenType::Identifier) {
            let name = self.advance();
            Ok(Expr::Variable { name, id: self.id_at(at) })
        } else if self.check(TokenType::LeftParen) {
            let _ = self.advance();
            let inner = self.expression()?;
            let _ = self.consume(TokenType::RightParen, "Expect')' after expression.")?;
            Ok(Expr::Grouping { expression: Box::new(inner) })
        } else {
            Err(self.error(at, "Expect expression."))
        }
    }

    /// A declaration of a variable, a class or a function, or a statement.
    fn declaration(&mut self) -> (result: Result<Stmt, ParserError>)
        requires
            old(self).wf(),
        ensures
            final(self).kept(old(self)),
            final(self).cursor() == declaration(
                old(self).tokens(),
                old(self).origin(),
                old(self).cursor(),
            ).0,
            is_stmt(
                result,
                declaration(old(self).tokens(), old(self).origin(), old(self).cursor()).1,
            ),
            result is Ok ==> old(self).cursor().pos < final(self).cursor().pos,
        decreases old(self).tokens@.len() - old(self).current, 55nat,
    {
        if self.check(TokenType::Var) {
            let _ = self.advance();
            self.var_declaration()
        } else if self.check(TokenType::Class) {
            let _ = self.advance();
            self.class_declaration()
        } else if self.check(TokenType::Fun) {
            let _ = self.advance();
            let made = self.function("function")?;
            Ok(Stmt::Function { declaration: Rc::new(made) })
        } else {
            self.statement()
        }
    }

    /// A statement.
    fn statement(&mut self) -> (result: Result<Stmt, ParserError>)
        requires
            old(self).wf(),
        ensures
            final(self).kept(old(self)),
            final(self).cursor() == statement(
                old(self).tokens(),
                old(self).origin(),
                old(self).cursor(),
            ).0,
            is_stmt(
                result,
                statement(old(self).tokens(), old(self).origin(), old(self).cursor()).1,
            ),
            result is Ok ==> old(self).cursor().pos < final(self).cursor().pos,
        decreases old(self).tokens@.len() - old(self).current, 50nat,
    {
        if self.check(TokenType::For) {
            let _ = self.advance();
            self.for_statement()
        } else if self.check(TokenType::If) {
            let _ = self.advance();
            self.if_statement()
        } else if self.check(TokenType::Print) {
            let _ = self.advance();
            self.print_statement()
        } else if self.check(TokenType::Return) {
            let keyword = self.advance();
            self.return_statement(keyword)
        } else if self.check(TokenType::While) {
            let _ = self.advance();
            self.while_statement()
        } else if self.check(TokenType::LeftBrace) {
            let _ = self.advance();
            let statements = self.block()?;
            Ok(Stmt::Block { statements })
        } else {
            self.expression_statement()
        }
    }

    /// An expression and the semicolon that makes it a statement.
    fn expression_statement(&mut self) -> (result: Result<Stmt, ParserError>)
        requires
            old(self).wf(),
        ensures
            final(self).kept(old(self)),
            final(self).cursor() == expression_statement(
                old(self).tokens(),
                old(self).origin(),
                old(self).cursor(),
            ).0,
            is_stmt(
                result,
                expression_statement(old(self).tokens(), old(self).origin(), old(self).cursor()).1,
            ),
            result is Ok ==> old(self).cursor().pos < final(self).cursor().pos,
        decreases old(self).tokens@.len() - old(self).current, 45nat,
    {
        let value = self.expression()?;
        let _ = self.consume(TokenType::Semicolon, "Expect ';' after value.")?;
        Ok(Stmt::Expression { expression: value })
    }

    /// `print`, after the keyword.
    fn print_statement(&mut self) -> (result: Result<Stmt, ParserError>)
        requires
            old(self).wf(),
        ensures
            final(self).kept(old(self)),
            final(self).cursor() == print_statement(
                old(self).tokens(),
                old(self).origin(),
                old(self).cursor(),
            ).0,
            is_stmt(
                result,
                print_statement(old(self).tokens(), old(self).origin(), old(self).cursor()).1,
            ),
        decreases old(self).tokens@.len() - old(self).current, 45nat,
    {
        let value = self.expression()?;
        let _ = self.consume(TokenType::Semicolon, "Expect ';' after value.")?;
        Ok(Stmt::Print { expression: value })
    }

    /// `return`, after the keyword.
    fn return_statement(&mut self, keyword: Token) -> (result: Result<Stmt, ParserError>)
        requires
            old(self).wf(),
        ensures
            final(self).kept(old(self)),
            final(self).cursor() == return_statement(
                old(self).tokens(),
                old(self).origin(),
                old(self).cursor(),
                keyword,
            ).0,
            is_stmt(
                result,
                return_statement(
                    old(self).tokens(),
                    old(self).origin(),
                    old(self).cursor(),
                    keyword,
                ).1,
            ),
        decreases old(self).tokens@.len() - old(self).current, 45nat,
    {
        let value = if self.check(TokenType::Semicolon) {
            Expr::Literal { value: Literal::Nil }
        } else {
            self.expression()?
        };
        let _ = self.consume(TokenType::Semicolon, "Expect ';' after return value.")?;
        Ok(Stmt::Return { keyword, value })
    }

    /// `var`, after the keyword.
    fn var_declaration(&mut self) -> (result: Result<Stmt, ParserError>)
        requires
            old(self).wf(),
        ensures
            final(self).kept(old(self)),
            final(self).cursor() == var_declaration(
                old(self).tokens(),
                old(self).origin(),
                old(self).cursor(),
            ).0,
            is_stmt(
                result,
                var_declaration(old(self).tokens(), old(self).origin(), old(self).cursor()).1,
            ),
        decreases old(self).tokens@.len() - old(self).current, 45nat,
    {
        let name = self.consume(TokenType::Identifier, "Expect variable name.")?;
        let initializer = if self.check(TokenType::Equal) {
            let _ = self.advance();
            self.expression()?
        } else {
            Expr::Literal { value: Literal::Nil }
        };
        let _ = self.consume(TokenType::Semicolon, "Expect ';' after variable declaration.")?;
        Ok(Stmt::Var { name, initializer })
    }

    /// `while`, after the keyword.
    fn while_statement(&mut self) -> (result: Result<Stmt, ParserError>)
        requires
            old(self).wf(),
        ensures
            final(self).kept(old(self)),
            final(self).cursor() == while_statement(
                old(self).tokens(),
                old(self).origin(),
                old(self).cursor(),
            ).0,
            is_stmt(
                result,
                while_statement(old(self).tokens(), old(self).origin(), old(self).cursor()).1,
            ),
        decreases old(self).tokens@.len() - old(self).current, 51nat,
    {
        let _ = self.consume(TokenType::LeftParen, "Expect '(' after 'while'.")?;
        let condition = self.expression()?;
        let _ = self.consume(TokenType::RightParen, "Expect ')' after condition.")?;
        let body = self.statement()?;
        Ok(Stmt::While { condition, body: Box::new(body) })
    }

    /// `if`, after the keyword.
    fn if_statement(&mut self) -> (result: Result<Stmt, ParserError>)
        requires
            old(self).wf(),
        ensures
            final(self).kept(old(self)),
            final(self).cursor() == if_statement(
                old(self).tokens(),
                old(self).origin(),
                old(self).cursor(),
            ).0,
            is_stmt(
                result,
                if_statement(old(self).tokens(), old(self).origin(), old(self).cursor()).1,
            ),
        decreases old(self).tokens@.len() - old(self).current, 51nat,
    {
        let _ = self.consume(TokenType::LeftParen, "Expect '(' after 'if'.")?;
        let condition = self.expression()?;
        let _ = self.consume(TokenType::RightParen, "Expect ')' after if condition.")?;
        let then_branch = self.statement()?;
        let else_branch = if self.check(TokenType::Else) {
            let _ = self.advance();
            Some(Box::new(self.statement()?))
        } else {
            None
        };
        Ok(Stmt::If { condition, then_branch: Box::new(then_branch), else_branch })
    }

    /// The initialiser of a `for` loop.
    fn for_initializer(&mut self) -> (result: Result<Option<Stmt>, ParserError>)
        requires
            old(self).wf(),
        ensures
            final(self).kept(old(self)),
            final(self).cursor() == for_initializer(
                old(self).tokens(),
                old(self).origin(),
                old(self).cursor(),
            ).0,
            match for_initializer(old(self).tokens(), old(self).origin(), old(self).cursor()).1 {
                Ok(Some(view)) => result matches Ok(Some(first)) && stmt_view(first) == view,
                Ok(None) => result matches Ok(None),
                Err(message) => result matches Err(error) && error.0@ == message,
            },
        decreases old(self).tokens@.len() - old(self).current, 52nat,
    {
        if self.check(TokenType::Semicolon) {
            let _ = self.advance();
            Ok(None)
        } else if self.check(TokenType::Var) {
            let _ = self.advance();
            Ok(Some(self.var_declaration()?))
        } else {
            Ok(Some(self.expression_statement()?))
        }
    }

    /// `for`, after the keyword.
    fn for_statement(&mut self) -> (result: Result<Stmt, ParserError>)
        requires
            old(self).wf(),
        ensures
            final(self).kept(old(self)),
            final(self).cursor() == for_statement(
                old(self).tokens(),
                old(self).origin(),
                old(self).cursor(),
            ).0,
            is_stmt(
                result,
                for_statement(old(self).tokens(), old(self).origin(), old(self).cursor()).1,
            ),
        decreases old(self).tokens@.len() - old(self).current, 53nat,
    {
        let _ = self.consume(TokenType::LeftParen, "Expect '(' after 'for'.")?;
        let initializer = self.for_initializer()?;
        let condition = if self.check(TokenType::Semicolon) {
            Expr::Literal { value: Literal::Bool(true) }
        } else {
            self.expression()?
        };
        let _ = self.consume(TokenType::Semicolon, "Expect ';' after loop condition.")?;
        let increment = if self.check(TokenType::RightParen) {
            None
        } else {
            Some(self.expression()?)
        };
        let _ = self.consume(TokenType::RightParen, "Expect ')' after for clauses.")?;
        let body = self.statement()?;
        Ok(for_loop(initializer, condition, increment, body))
    }

    /// The declarations of a block and its closing brace.
    #[verifier::loop_isolation(false)]
    fn block(&mut self) -> (result: Result<Vec<Stmt>, ParserError>)
        requires
            old(self).wf(),
        ensures
            final(self).kept(old(self)),
            final(self).cursor() == block(
                old(self).tokens(),
                old(self).origin(),
                old(self).cursor(),
                Seq::empty(),
            ).0,
            is_stmts(
                result,
                block(old(self).tokens(), old(self).origin(), old(self).cursor(), Seq::empty()).1,
            ),
        decreases old(self).tokens@.len() - old(self).current, 56nat,
    {
        let ghost goal = block(self.tokens(), self.origin(), self.cursor(), Seq::empty());
        let mut statements: Vec<Stmt> = Vec::new();
        while !self.check(TokenType::RightBrace) && !self.is_at_end()
            invariant
                self.kept(old(self)),
                block(self.tokens(), self.origin(), self.cursor(), program_view(statements))
                    == goal,
            decreases self.tokens@.len() - self.current,
        {
            let next = self.declaration()?;
            push_stmt(&mut statements, next);
        }
        let _ = self.consume(TokenType::RightBrace, "Expect '}' after block.")?;
        Ok(statements)
    }

    /// The parameters of a function.
    #[verifier::loop_isolation(false)]
    fn parameters(&mut self) -> (result: Result<Vec<Token>, ParserError>)
        requires
            old(self).wf(),
        ensures
            final(self).kept(old(self)),
            final(self).cursor() == parameters(
                old(self).tokens(),
                old(self).cursor(),
                Seq::empty(),
            ).0,
            match parameters(old(self).tokens(), old(self).cursor(), Seq::empty()).1 {
                Ok(list) => result matches Ok(params) && params@ == list,
                Err(message) => result matches Err(error) && error.0@ == message,
            },
    {
        let ghost goal = parameters(self.tokens(), self.cursor(), Seq::empty());
        let mut params: Vec<Token> = Vec::new();
        let mut more = true;
        while more
            invariant
                self.kept(old(self)),
                more ==> parameters(self.tokens(), self.cursor(), params@) == goal,
                !more ==> goal == (self.cursor(), Ok::<Seq<Token>, Seq<char>>(params@)),
            decreases
                    self.tokens@.len() - self.current,
                    if more {
                        1nat
                    } else {
                        0nat
                    },
        {
            if !self.check(TokenType::RightParen) {
                if params.len() >= 255 {
                    let at = self.current;
                    return Err(self.error(at, "Cannot have more than 255 parameters."));
                }
                let name = self.consume(TokenType::Identifier, "Expect parameter name.")?;
                params.push(name);
            }
            if self.check(TokenType::Comma) {
                let _ = self.advance();
            } else {
                more = false;
            }
        }
        Ok(params)
    }

    /// A function or method, after the keyword of a function.
    fn function(&mut self, kind: &str) -> (result: Result<FunctionDecl, ParserError>)
        requires
            old(self).wf(),
        ensures
            final(self).kept(old(self)),
            final(self).cursor() == function(
                old(self).tokens(),
                old(self).origin(),
                old(self).cursor(),
                kind@,
            ).0,
            is_function(
                result,
                function(old(self).tokens(), old(self).origin(), old(self).cursor(), kind@).1,
            ),
            result is Ok ==> old(self).cursor().pos < final(self).cursor().pos,
        decreases old(self).tokens@.len() - old(self).current, 57nat,
    {
        let no_name = kind_message("Expect ", kind, " name.");
        let name = self.consume(TokenType::Identifier, no_name.as_str())?;
        let no_paren = kind_message("Expect '(' after ", kind, " name.");
        let _ = self.consume(TokenType::LeftParen, no_paren.as_str())?;
        let params = self.parameters()?;
        let _ = self.consume(TokenType::RightParen, "Expect ')' after parameters.")?;
        let no_body = kind_message("Expect '{' before ", kind, " body.");
        let _ = self.consume(TokenType::LeftBrace, no_body.as_str())?;
        let body = self.block()?;
        Ok(FunctionDecl { name, params, body })
    }

    /// The class that a class extends, where it names one.
    fn heritage(&mut self) -> (result: Result<Option<Expr>, ParserError>)
        requires
            old(self).wf(),
        ensures
            final(self).kept(old(self)),
            final(self).cursor() == heritage(
                old(self).tokens(),
                old(self).origin(),
                old(self).cursor(),
            ).0,
            match heritage(old(self).tokens(), old(self).origin(), old(self).cursor()).1 {
                Ok(Some(view)) => result matches Ok(Some(parent)) && expr_view(parent) == view,
                Ok(None) => result matches Ok(None),
                Err(message) => result matches Err(error) && error.0@ == message,
            },
    {
        if self.check(TokenType::Less) {
            let _ = self.advance();
            let at = self.current;
            let name = self.consume(TokenType::Identifier, "Expect superclass name.")?;
            Ok(Some(Expr::Variable { name, id: self.id_at(at) }))
        } else {
            Ok(None)
        }
    }

    /// A class, after the keyword.
    #[verifier::loop_isolation(false)]
    fn class_declaration(&mut self) -> (result: Result<Stmt, ParserError>)
        requires
            old(self).wf(),
        ensures
            final(self).kept(old(self)),
            final(self).cursor() == class_declaration(
                old(self).tokens(),
                old(self).origin(),
                old(self).cursor(),
            ).0,
            is_stmt(
                result,
                class_declaration(old(self).tokens(), old(self).origin(), old(self).cursor()).1,
            ),
        decreases old(self).tokens@.len() - old(self).current, 59nat,
    {
        let name = self.consume(TokenType::Identifier, "Expect class name.")?;
        let superclass = self.heritage()?;
        let _ = self.consume(TokenType::LeftBrace, "Expect '{' before class body.")?;
        let ghost goal = methods(self.tokens(), self.origin(), self.cursor(), Seq::empty());
        let mut list: Vec<Rc<FunctionDecl>> = Vec::new();
        while !self.check(TokenType::RightBrace) && !self.is_at_end()
            invariant
                self.kept(old(self)),
                methods(
                    self.tokens(),
                    self.origin(),
                    self.cursor(),
                    function_views(list, list.len() as nat),
                ) == goal,
            decreases self.tokens@.len() - self.current,
        {
            let next = self.function("method")?;
            push_function(&mut list, next);
        }
        let _ = self.consume(TokenType::RightBrace, "Expect '}' after class body.")?;
        Ok(Stmt::Class { name, superclass, methods: list })
    }
}

/// A `for` loop written with the other statements.
pub fn for_loop(initializer: Option<Stmt>, condition: Expr, increment: Option<Expr>, body: Stmt) -> (whole:
    Stmt)
    ensures
        stmt_view(whole) == desugar_for(
            match initializer {
                Some(first) => Some(stmt_view(first)),
                None => None,
            },
            expr_view(condition),
            match increment {
                Some(e) => Some(expr_view(e)),
                None => None,
            },
            stmt_view(body),
        ),
{
    let ghost body_view = stmt_view(body);
    let stepped = match increment {
        Some(expression) => {
            let ghost step_view = StmtView::Expression { expression: expr_view(expression) };
            let mut statements: Vec<Stmt> = Vec::new();
            push_stmt(&mut statements, body);
            push_stmt(&mut statements, Stmt::Expression { expression });
            assert(program_view(statements) =~= seq![body_view, step_view]);
            Stmt::Block { statements }
        },
        None => body,
    };
    let ghost stepped_view = stmt_view(stepped);
    let looped = Stmt::While { condition, body: Box::new(stepped) };
    let ghost looped_view = stmt_view(looped);
    assert(looped_view == StmtView::While {
        condition: expr_view(condition),
        body: Box::new(stepped_view),
    });
    match initializer {
        Some(first) => {
            let ghost first_view = stmt_view(first);
            let mut statements: Vec<Stmt> = Vec::new();
            push_stmt(&mut statements, first);
            push_stmt(&mut statements, looped);
            assert(program_view(statements) =~= seq![first_view, looped_view]);
            Stmt::Block { statements }
        },
        None => looped,
    }
}

} // verus!
