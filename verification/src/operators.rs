//! The unary and binary operators on runtime values.

use vstd::prelude::*;
use vstd::string::*;
use crate::error::{runtime_error, Error};
use crate::float_unit::FloatUnit;
use crate::object::{Object, Value};
use crate::callable::clock_outcome;
use crate::error::ErrorView;
use crate::semantics::{binary, is_equal, unary, Answer, Outcome};
use crate::token::{Literal, Token};
use crate::token_type::TokenType;

verus! {

/// A result is an answer from outside of the given kind.
pub open spec fn answers(result: Result<Object, Error>, answer: Answer) -> bool {
    match answer {
        Answer::Float => result matches Ok(object) && object@ is Float,
        Answer::Truth => result matches Ok(object) && object@ is Bool,
        Answer::Clock(paren) => exists|seconds: Option<u64>|
            matches_reading(result, #[trigger] clock_outcome(paren, seconds)),
    }
}

/// A result is what a reading of the clock yields.
pub open spec fn matches_reading(result: Result<Object, Error>, reading: Result<Value, ErrorView>) -> bool {
    match reading {
        Ok(value) => result matches Ok(object) && object@ == value,
        Err(error) => result matches Err(got) && got@ == error,
    }
}

/// An executable result says what an outcome says: the value, the error,
/// or the kind of an answer from outside. Of an outcome beyond such an
/// answer nothing is said.
pub open spec fn agrees(result: Result<Object, Error>, outcome: Outcome<Value>) -> bool {
    match outcome {
        Outcome::Done(value) => result matches Ok(got) && got@ == value,
        Outcome::Failed(error) => result matches Err(got) && got@ == error,
        Outcome::Outside(answer) => answers(result, answer),
        Outcome::Beyond => true,
    }
}

/// Whether two values are equal: scalars of one kind that agree. Two
/// floating-point numbers are handed to the unit; values of different
/// kinds, and values that are no scalars, are never equal.
pub fn equal_values<F: FloatUnit>(unit: &F, left: &Object, right: &Object) -> (same: bool)
    ensures
        match is_equal(left@, right@) {
            Some(answer) => same == answer,
            None => true,
        },
{
    match (left, right) {
        (Object::Literal(a), Object::Literal(b)) => match (a, b) {
            (Literal::Nil, Literal::Nil) => true,
            (Literal::Bool(x), Literal::Bool(y)) => *x == *y,
            (Literal::String(x), Literal::String(y)) => *x == *y,
            (Literal::Isize(x), Literal::Isize(y)) => *x == *y,
            (Literal::Float(x), Literal::Float(y)) => unit.compare(TokenType::EqualEqual, *x, *y),
            _ => false,
        },
        _ => false,
    }
}

/// An integer result where there is one, else the error of an overflow.
fn checked(operator: &Token, result: Option<isize>) -> (value: Result<Object, Error>)
    ensures
        match result {
            Some(i) => value matches Ok(object) && object@ == Value::Int(i),
            None => value matches Err(error) && error@ == crate::semantics::runtime(
                *operator,
                "Integer overflow."@,
            ),
        },
{
    match result {
        Some(i) => Ok(Object::Literal(Literal::Isize(i))),
        None => Err(runtime_error(operator, "Integer overflow.")),
    }
}

/// An arithmetic or ordering operator on two integers: exact, with an
/// error where the result does not fit or the divisor is zero; the
/// quotient is rounded toward zero.
pub fn integer_op(operator: &Token, a: isize, b: isize) -> (result: Result<Object, Error>)
    ensures
        agrees(result, crate::semantics::integer_binary(*operator, a, b)),
{
    match operator.token_type {
        TokenType::Greater => Ok(Object::boolean(a > b)),
        TokenType::GreaterEqual => Ok(Object::boolean(a >= b)),
        TokenType::Less => Ok(Object::boolean(a < b)),
        TokenType::LessEqual => Ok(Object::boolean(a <= b)),
        TokenType::Minus => checked(operator, a.checked_sub(b)),
        TokenType::Plus => checked(operator, a.checked_add(b)),
        TokenType::Star => checked(operator, a.checked_mul(b)),
        _ => if b == 0 {
            Err(runtime_error(operator, "Division by zero."))
        } else {
            checked(operator, a.checked_div(b))
        },
    }
}

/// The bits of a number, where the value is a number: those of a
/// floating-point number as they are, those of an integer as the unit
/// widens it.
fn as_float<F: FloatUnit>(unit: &F, value: &Object) -> (bits: Option<u64>)
    ensures
        bits is Some == crate::semantics::is_number(value@),
{
    match value {
        Object::Literal(Literal::Isize(i)) => Some(unit.widen(*i)),
        Object::Literal(Literal::Float(bits)) => Some(*bits),
        _ => None,
    }
}

/// A binary operator on two values. Integers are computed here, strings
/// concatenated here; where a floating-point number is among two numbers,
/// both go to the unit as floating-point numbers, and what comes back is
/// the result: a floating-point number for an arithmetic operator, a
/// truth value for an ordering.
pub fn binary_op<F: FloatUnit>(unit: &F, operator: &Token, left: &Object, right: &Object) -> (result:
    Result<Object, Error>)
    ensures
        agrees(result, binary(*operator, left@, right@)),
{
    match operator.token_type {
        TokenType::Greater
        | TokenType::GreaterEqual
        | TokenType::Less
        | TokenType::LessEqual
        | TokenType::Minus
        | TokenType::Plus
        | TokenType::Slash
        | TokenType::Star => {
            match (left, right) {
                (Object::Literal(Literal::Isize(a)), Object::Literal(Literal::Isize(b))) => {
                    return integer_op(operator, *a, *b);
                },
                (Object::Literal(Literal::String(a)), Object::Literal(Literal::String(b))) => {
                    if operator.token_type == TokenType::Plus {
                        let mut joined = a.clone();
                        joined.append(b.as_str());
                        return Ok(Object::Literal(Literal::String(joined)));
                    } else {
                        return Err(runtime_error(operator, "Operands must be numbers."));
                    }
                },
                _ => {},
            }
            match (as_float(unit, left), as_float(unit, right)) {
                (Some(a), Some(b)) => match operator.token_type {
                    TokenType::Minus | TokenType::Plus | TokenType::Slash | TokenType::Star => Ok(
                        Object::Literal(Literal::Float(unit.arithmetic(operator.token_type, a, b))),
                    ),
                    _ => Ok(Object::boolean(unit.compare(operator.token_type, a, b))),
                },
                _ => Err(runtime_error(operator, "Operands must be numbers.")),
            }
        },
        TokenType::BangEqual => Ok(Object::boolean(!equal_values(unit, left, right))),
        TokenType::EqualEqual => Ok(Object::boolean(equal_values(unit, left, right))),
        _ => Ok(Object::nil()),
    }
}

/// A unary operator on a value: `-` negates a number, `!` tells whether
/// the value counts as false.
pub fn unary_op<F: FloatUnit>(unit: &F, operator: &Token, right: &Object) -> (result: Result<
    Object,
    Error,
>)
    ensures
        agrees(result, unary(*operator, right@)),
{
    match operator.token_type {
        TokenType::Minus => match right {
            Object::Literal(Literal::Isize(i)) => {
                let zero: isize = 0;
                checked(operator, zero.checked_sub(*i))
            },
            Object::Literal(Literal::Float(bits)) => Ok(
                Object::Literal(Literal::Float(unit.negate(*bits))),
            ),
            _ => Err(runtime_error(operator, "Operand must be a number.")),
        },
        TokenType::Bang => Ok(Object::boolean(!right.is_truthy())),
        _ => Ok(Object::nil()),
    }
}

} // verus!
