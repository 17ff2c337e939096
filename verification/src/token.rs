//! Tokens and the scalar literals they carry.

use vstd::prelude::*;
use crate::token_type::TokenType;

verus! {

/// A scalar literal. A floating-point number is held as the bit pattern of
/// its IEEE 754 binary64 encoding; the library never looks inside it.
#[derive(Debug)]
pub enum Literal {
    Isize(isize),
    String(String),
    Float(u64),
    Bool(bool),
    Nil,
}

impl Clone for Literal {
    fn clone(&self) -> (copy: Self)
        ensures
            copy == *self,
    {
        match self {
            Literal::Isize(i) => Literal::Isize(*i),
            Literal::String(s) => Literal::String(s.clone()),
            Literal::Float(bits) => Literal::Float(*bits),
            Literal::Bool(b) => Literal::Bool(*b),
            Literal::Nil => Literal::Nil,
        }
    }
}

/// One lexeme of the source text, with the line it was read on.
#[derive(Debug)]
pub struct Token {
    pub token_type: TokenType,
    pub lexeme: String,
    pub literal: Literal,
    pub line: usize,
}

impl Token {
    /// A token of the given parts.
    pub fn new(token_type: TokenType, lexeme: String, literal: Literal, line: usize) -> (token: Token)
        ensures
            token == (Token { token_type, lexeme, literal, line }),
    {
        Token { token_type, lexeme, literal, line }
    }
}

impl Clone for Token {
    fn clone(&self) -> (copy: Self)
        ensures
            copy == *self,
    {
        Token {
            token_type: self.token_type,
            lexeme: self.lexeme.clone(),
            literal: self.literal.clone(),
            line: self.line,
        }
    }
}

} // verus!
