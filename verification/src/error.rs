//! What can go wrong, and the text of a report.

use vstd::prelude::*;
use vstd::string::*;
use crate::text::{decimal, usize_text};
use crate::token::Token;
use crate::token_type::TokenType;

verus! {

/// A failure of one of the passes over a program.
#[derive(Debug)]
pub enum Error {
    /// The source is not a program of the language.
    ParseError(String),
    /// A static rule on scopes is broken at the token.
    ResolveError(Token, String),
    /// Evaluation failed at the token.
    RuntimeError(Token, String),
    /// The evaluation budget ran out.
    Exhausted,
}

/// An [`Error`] with its messages as sequences of characters.
pub enum ErrorView {
    ParseError(Seq<char>),
    ResolveError(Token, Seq<char>),
    RuntimeError(Token, Seq<char>),
    Exhausted,
}

impl View for Error {
    type V = ErrorView;

    open spec fn view(&self) -> ErrorView {
        match *self {
            Error::ParseError(message) => ErrorView::ParseError(message@),
            Error::ResolveError(token, message) => ErrorView::ResolveError(token, message@),
            Error::RuntimeError(token, message) => ErrorView::RuntimeError(token, message@),
            Error::Exhausted => ErrorView::Exhausted,
        }
    }
}

impl Clone for Error {
    fn clone(&self) -> (copy: Self)
        ensures
            copy == *self,
    {
        match self {
            Error::ParseError(message) => Error::ParseError(message.clone()),
            Error::ResolveError(token, message) => Error::ResolveError(
                token.clone(),
                message.clone(),
            ),
            Error::RuntimeError(token, message) => Error::RuntimeError(
                token.clone(),
                message.clone(),
            ),
            Error::Exhausted => Error::Exhausted,
        }
    }
}

/// A runtime error at `token` with the given message.
pub fn runtime_error(token: &Token, message: &str) -> (error: Error)
    ensures
        error@ == ErrorView::RuntimeError(*token, message@),
{
    Error::RuntimeError(token.clone(), String::from_str(message))
}

/// A resolve error at `token` with the given message.
pub fn static_error(token: &Token, message: &str) -> (error: Error)
    ensures
        error@ == ErrorView::ResolveError(*token, message@),
{
    Error::ResolveError(token.clone(), String::from_str(message))
}

/// The line of a report: the line number, the place and the message.
pub open spec fn report_text(line: nat, place: Seq<char>, message: Seq<char>) -> Seq<char> {
    "[line "@ + decimal(line) + "] Error "@ + place + ": "@ + message
}

/// Writes the line of a report.
pub fn report(line: usize, place: &str, message: &str) -> (text: String)
    ensures
        text@ == report_text(line as nat, place@, message@),
{
    let mut text = String::from_str("[line ");
    let number = usize_text(line);
    text.append(number.as_str());
    text.append("] Error ");
    text.append(place);
    text.append(": ");
    text.append(message);
    text
}

/// The report of a lexical error on `line`.
pub fn lexer_error(line: usize, message: &str) -> (text: String)
    ensures
        text@ == report_text(line as nat, ""@, message@),
{
    report(line, "", message)
}

/// The reports of an error at `token`: at the end of input one that says
/// so comes first, and the plain one follows in every case.
pub open spec fn token_reports(token: Token, message: Seq<char>) -> Seq<Seq<char>> {
    if token.token_type == TokenType::EOF {
        seq![
            report_text(token.line as nat, " at end"@, message),
            report_text(token.line as nat, ""@, message),
        ]
    } else {
        seq![report_text(token.line as nat, ""@, message)]
    }
}

/// What a list of texts spells.
pub open spec fn texts(lines: Seq<String>) -> Seq<Seq<char>> {
    lines.map_values(|line: String| line@)
}

/// Writes the reports of an error at `token`.
fn reports_at(token: &Token, message: &str) -> (lines: Vec<String>)
    ensures
        texts(lines@) == token_reports(*token, message@),
{
    let mut lines: Vec<String> = Vec::new();
    if token.token_type == TokenType::EOF {
        lines.push(report(token.line, " at end", message));
    }
    lines.push(report(token.line, "", message));
    assert(texts(lines@) =~= token_reports(*token, message@));
    lines
}

/// The reports of a syntax error at `token`.
pub fn parser_error(token: &Token, message: &str) -> (lines: Vec<String>)
    ensures
        texts(lines@) == token_reports(*token, message@),
{
    reports_at(token, message)
}

/// The reports of a scoping error at `token`.
pub fn resolve_error(token: &Token, message: &str) -> (lines: Vec<String>)
    ensures
        texts(lines@) == token_reports(*token, message@),
{
    reports_at(token, message)
}

} // verus!
