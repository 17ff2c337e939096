//! A whole run: from the text of a program to what it does.

use vstd::prelude::*;
use vstd::string::*;
use crate::ast::program_view;
use crate::error::{texts, Error, ErrorView};
use crate::float_unit::FloatUnit;
use crate::ast::StmtView;
use crate::grammar::{identifier, program, Cursor, Read};
use crate::interpreter::{first_report, lasting, resolved_state, valid, Interpreter};
use crate::lexer::{lex, spell_all, Lexer};
use crate::parser::Parser;
use crate::resolver::{fresh, resolve_stmts, Resolver};
use crate::semantics::State;
use crate::stmt::Stmt;
use crate::token::Token;
use crate::token_type::TokenType;

verus! {

/// The tokens of a text always end with the token of the end of input.
pub proof fn lemma_lex_ends(chars: Seq<char>, start: nat, line: nat)
    ensures
        lex(chars, start, line).lexemes.len() > 0,
        lex(chars, start, line).lexemes.last().kind == TokenType::EOF,
    decreases chars.len() - start,
{
    if start < chars.len() {
        let step = crate::lexer::scan(chars, start, line);
        if !(step.end <= start || step.end > chars.len()) {
            lemma_lex_ends(chars, step.end, step.line);
        }
    }
}

/// The parser at the start of a list of tokens.
pub open spec fn start() -> Cursor {
    Cursor { pos: 0, reports: Seq::empty() }
}

/// The number from which the identifiers of the next text are counted,
/// after a text of `count` tokens was numbered from `origin`.
pub open spec fn next_origin(origin: usize, count: nat) -> usize {
    identifier(origin, count)
}

/// The next origin lies past every identifier that the text was given,
/// unless the machine's integers run out.
pub proof fn law_next_origin(origin: usize, count: nat, pos: nat)
    requires
        pos < count,
        origin + count <= usize::MAX,
    ensures
        identifier(origin, pos) < next_origin(origin, count),
        next_origin(origin, count) == origin + count,
{
}

/// What the resolver reports of a tree that was read: nothing of a text
/// that was not read.
pub open spec fn resolver_reports(parsed: Read<Seq<StmtView>>, statements: Vec<Stmt>) -> Seq<
    Seq<char>,
> {
    match parsed {
        Err(_) => Seq::empty(),
        Ok(_) => match resolve_stmts(fresh(), statements, 0) {
            Err(refused) => refused.state.reports,
            Ok(r) => r.reports,
        },
    }
}

/// What a run of a text does, where `tokens` are the tokens of the text
/// and `statements` the tree read from them: the reports of the lexer, the
/// parser and the resolver are added to the diagnostics, in this order; a
/// text that the parser or the resolver refuses is not run and leaves the
/// interpreter as it was; else the program runs as
/// [`crate::semantics::run`] says, with what the resolver found.
pub open spec fn ran(
    source: Seq<char>,
    origin: usize,
    budget: u64,
    tokens: Seq<Token>,
    statements: Vec<Stmt>,
    before: (State, Seq<Seq<char>>),
    after: (State, Seq<Seq<char>>),
    result: Result<(), Error>,
) -> bool {
    let lexed = lex(source, 0, 0);
    let parsed = program(tokens, origin, start(), Seq::empty());
    &&& spell_all(tokens, lexed.lexemes)
    &&& after.1 == before.1 + lexed.reports + parsed.0.reports + resolver_reports(
        parsed.1,
        statements,
    )
    &&& match parsed.1 {
        Err(_) => {
            &&& result matches Err(error) && error@ == ErrorView::ParseError("parse error"@)
            &&& after.0 == before.0
        },
        Ok(views) => {
            &&& program_view(statements) == views
            &&& match resolve_stmts(fresh(), statements, 0) {
                Err(refused) => {
                    &&& result matches Err(error) && error@ == refused.error
                    &&& after.0 == before.0
                },
                Ok(r) => {
                    &&& match crate::semantics::run(
                        resolved_state(before.0, r.resolved),
                        statements,
                        0,
                        budget as nat,
                    ) {
                        Some(s) => after.0 == s,
                        None => true,
                    }
                    &&& first_report(before.0.reports, after.0.reports, result)
                },
            }
        },
    }
}

/// Appends copies of lines to a list.
fn append_copies(list: &mut Vec<String>, lines: &Vec<String>)
    ensures
        texts(final(list)@) == texts(old(list)@) + texts(lines@),
{
    let mut i: usize = 0;
    assert(texts(list@) =~= texts(old(list)@) + texts(lines@.take(0)));
    while i < lines.len()
        invariant
            i <= lines.len(),
            texts(list@) == texts(old(list)@) + texts(lines@.take(i as int)),
        decreases lines.len() - i,
    {
        let ghost before = list@;
        list.push(lines[i].clone());
        assert(lines@.take(i + 1) =~= lines@.take(i as int).push(lines@[i as int]));
        assert(texts(list@) =~= texts(before).push(lines@[i as int]@));
        assert(texts(lines@.take(i + 1)) =~= texts(lines@.take(i as int)).push(
            lines@[i as int]@,
        ));
        assert(texts(list@) =~= texts(old(list)@) + texts(lines@.take(i + 1)));
        i = i + 1;
    }
    assert(lines@.take(lines.len() as int) =~= lines@);
}

/// Runs a text on an interpreter: the text is lexed and parsed, with the
/// identifiers of its expressions counted from `origin`; the tree is
/// resolved, and the program is run. The reports of the lexer, the parser
/// and the resolver are added to `diagnostics`, and `origin` is moved past
/// the identifiers of the text, for the next text of the session.
pub fn run<F: FloatUnit>(
    unit: &F,
    source: &str,
    interpreter: &mut Interpreter,
    origin: &mut usize,
    diagnostics: &mut Vec<String>,
) -> (result: Result<(), Error>)
    requires
        valid(old(interpreter)@),
    ensures
        lasting(old(interpreter)@, final(interpreter)@),
        final(interpreter).spec_budget() == old(interpreter).spec_budget(),
        exists|tokens: Seq<Token>, statements: Vec<Stmt>|
            {
                &&& ran(
                    source@,
                    *old(origin),
                    old(interpreter).spec_budget(),
                    tokens,
                    statements,
                    (old(interpreter)@, texts(old(diagnostics)@)),
                    (final(interpreter)@, texts(final(diagnostics)@)),
                    result,
                )
                &&& *final(origin) == next_origin(*old(origin), tokens.len())
            },
{
    let first = *origin;
    let mut lexer = Lexer::new(String::from_str(source));
    let tokens = lexer.tokenize_all(unit);
    let ghost seen = tokens@;
    proof {
        lemma_lex_ends(source@, 0, 0);
    }
    *origin = if tokens.len() <= usize::MAX - first {
        first + tokens.len()
    } else {
        usize::MAX
    };
    append_copies(diagnostics, lexer.reports());
    let mut parser = Parser::with_origin(tokens, first);
    let parsed = parser.parse();
    append_copies(diagnostics, parser.reports());
    let ghost told = texts(diagnostics@);
    match parsed {
        Ok(statements) => {
            let mut resolver = Resolver::new();
            let resolved = resolver.resolve_statements(&statements);
            append_copies(diagnostics, resolver.reports());
            let result = match resolved {
                Ok(_) => {
                    interpreter.load(resolver.resolved());
                    interpreter.interpret(unit, &statements)
                },
                Err(error) => Err(error),
            };
            assert(ran(
                source@,
                first,
                old(interpreter).spec_budget(),
                seen,
                statements,
                (old(interpreter)@, texts(old(diagnostics)@)),
                (interpreter@, texts(diagnostics@)),
                result,
            ));
            result
        },
        Err(_) => {
            let unread: Vec<Stmt> = Vec::new();
            let result = Err(Error::ParseError(String::from_str("parse error")));
            assert(texts(diagnostics@) =~= told + Seq::<Seq<char>>::empty());
            assert(ran(
                source@,
                first,
                old(interpreter).spec_budget(),
                seen,
                unread,
                (old(interpreter)@, texts(old(diagnostics)@)),
                (interpreter@, texts(diagnostics@)),
                result,
            ));
            result
        },
    }
}

} // verus!
