//! What the library asks of floating-point arithmetic.

use vstd::prelude::*;
use crate::token_type::TokenType;

verus! {

/// Arithmetic on floating-point numbers, each given and returned as the bit
/// pattern of its IEEE 754 binary64 encoding. The library computes nothing
/// on such numbers itself: it hands the operands to a unit and takes what
/// comes back. Nothing is assumed of the answers.
pub trait FloatUnit {
    /// The number nearest to an integer.
    fn widen(&self, i: isize) -> u64;

    /// The negation of a number.
    fn negate(&self, a: u64) -> u64;

    /// The sum, difference, product or quotient of two numbers, as
    /// `operator` is `Plus`, `Minus`, `Star` or `Slash`.
    fn arithmetic(&self, operator: TokenType, a: u64, b: u64) -> u64;

    /// Whether `a` stands to `b` as `operator` says: `Greater`,
    /// `GreaterEqual`, `Less`, `LessEqual` or `EqualEqual`.
    fn compare(&self, operator: TokenType, a: u64, b: u64) -> bool;

    /// The text of a number, as `print` shows it.
    fn render(&self, a: u64) -> String;

    /// The number that a numeral of digits, a point and digits denotes.
    fn parse(&self, numeral: &str) -> u64;
}

} // verus!
