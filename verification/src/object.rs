//! Runtime values.

use vstd::prelude::*;
use std::rc::Rc;
use crate::callable::{share, Clock, LoxFunction};
use crate::lox_class::{ClassView, LoxClass};
use crate::token::Literal;

verus! {

/// A runtime value. An instance is named by its place in the interpreter's
/// table of instances, so that every copy of the value means the same
/// object.
pub enum Object {
    Literal(Literal),
    Func(LoxFunction),
    Clock(Clock),
    Class(Rc<LoxClass>),
    Instance(usize),
}

/// A runtime value as a mathematical value.
pub enum Value {
    Nil,
    Bool(bool),
    Int(isize),
    Float(u64),
    Str(Seq<char>),
    Func(LoxFunction),
    Clock,
    Class(ClassView),
    Instance(usize),
}

impl View for Literal {
    type V = Value;

    open spec fn view(&self) -> Value {
        match *self {
            Literal::Isize(i) => Value::Int(i),
            Literal::String(s) => Value::Str(s@),
            Literal::Float(bits) => Value::Float(bits),
            Literal::Bool(b) => Value::Bool(b),
            Literal::Nil => Value::Nil,
        }
    }
}

impl View for Object {
    type V = Value;

    open spec fn view(&self) -> Value {
        match *self {
            Object::Literal(literal) => literal@,
            Object::Func(function) => Value::Func(function),
            Object::Clock(_) => Value::Clock,
            Object::Class(class) => Value::Class(class@),
            Object::Instance(handle) => Value::Instance(handle),
        }
    }
}

impl Clone for Object {
    fn clone(&self) -> (copy: Self)
        ensures
            copy == *self,
    {
        match self {
            Object::Literal(literal) => Object::Literal(literal.clone()),
            Object::Func(function) => Object::Func(function.clone()),
            Object::Clock(clock) => Object::Clock(*clock),
            Object::Class(class) => Object::Class(share(class)),
            Object::Instance(handle) => Object::Instance(*handle),
        }
    }
}

impl Value {
    /// Whether the value counts as true: all but `false` and nil do.
    pub open spec fn truthy(self) -> bool {
        match self {
            Value::Nil => false,
            Value::Bool(b) => b,
            _ => true,
        }
    }
}

impl Object {
    /// The value nil.
    pub fn nil() -> (object: Object)
        ensures
            object@ == Value::Nil,
    {
        Object::Literal(Literal::Nil)
    }

    /// The value of a truth value.
    pub fn boolean(b: bool) -> (object: Object)
        ensures
            object@ == Value::Bool(b),
    {
        Object::Literal(Literal::Bool(b))
    }

    /// Whether the value counts as true.
    pub fn is_truthy(&self) -> (truth: bool)
        ensures
            truth == self@.truthy(),
    {
        match self {
            Object::Literal(Literal::Nil) => false,
            Object::Literal(Literal::Bool(b)) => *b,
            _ => true,
        }
    }
}

} // verus!
