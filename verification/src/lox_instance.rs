//! Instances of classes.

use vstd::prelude::*;
use vstd::string::*;
use std::rc::Rc;
use crate::callable::LoxFunction;
use crate::environment::{bind, capture, nest, Environment, ScopeView};
use crate::error::{runtime_error, Error, ErrorView};
use crate::lox_class::{ClassView, LoxClass};
use crate::name_map::NameMap;
use crate::object::{Object, Value};
use crate::token::Token;

verus! {

/// An instance: its class and its own fields.
pub struct LoxInstance {
    pub class: Rc<LoxClass>,
    pub fields: NameMap<Object>,
}

/// An instance as a mathematical value.
pub struct InstanceView {
    pub class: ClassView,
    pub fields: Map<Seq<char>, Value>,
}

impl View for LoxInstance {
    type V = InstanceView;

    open spec fn view(&self) -> InstanceView {
        InstanceView { class: self.class@, fields: self.fields@ }
    }
}

/// The error of a property that an instance lacks.
pub open spec fn undefined_property(name: Token) -> ErrorView {
    ErrorView::RuntimeError(name, "Undefined property '"@ + name.lexeme@ + "'."@)
}

/// The error of a function whose scope is no scope of the interpreter.
pub open spec fn lost_scope(token: Token) -> ErrorView {
    ErrorView::RuntimeError(token, "Function scope is not of this interpreter."@)
}

/// A method bound to the instance `handle`: the scopes after a new one is
/// made inside the method's own, the function returned closes over it, and
/// `this` is bound there to the instance; and the function, which runs the
/// method's declaration in that scope. `None` where the method's scope is
/// none of the scopes.
pub open spec fn bound(scopes: Seq<ScopeView>, method: LoxFunction, handle: usize) -> Option<
    (Seq<ScopeView>, LoxFunction),
> {
    if method.closure < scopes.len() {
        Some(
            (
                bind(
                    capture(nest(scopes, method.closure), scopes.len() as usize),
                    scopes.len() as usize,
                    "this"@,
                    Value::Instance(handle),
                ),
                LoxFunction { declaration: method.declaration, closure: scopes.len() as usize },
            ),
        )
    } else {
        None
    }
}

impl InstanceView {
    /// The property `name` of the instance `handle`, and the scopes after
    /// it is read: a field of that name comes first and leaves the scopes
    /// as they are; else the nearest method of that name is bound to the
    /// instance; an instance that has neither has no such property.
    pub open spec fn get(self, name: Token, handle: usize, scopes: Seq<ScopeView>) -> (
        Seq<ScopeView>,
        Result<Value, ErrorView>,
    ) {
        if self.fields.contains_key(name.lexeme@) {
            (scopes, Ok(self.fields[name.lexeme@]))
        } else {
            match self.class.find_method(name.lexeme@) {
                Some(method) => match bound(scopes, method, handle) {
                    Some((grown, function)) => (grown, Ok(Value::Func(function))),
                    None => (scopes, Err(lost_scope(name))),
                },
                None => (scopes, Err(undefined_property(name))),
            }
        }
    }
}

impl LoxInstance {
    /// The property `name` of this instance, which is the instance
    /// `handle` of its interpreter: a field, or a method bound to the
    /// instance in a new scope of `environment`.
    pub fn get(&self, name: &Token, handle: usize, environment: &mut Environment) -> (result: Result<
        Object,
        Error,
    >)
        ensures
            final(environment)@ == self@.get(*name, handle, old(environment)@).0,
            match self@.get(*name, handle, old(environment)@).1 {
                Ok(value) => result matches Ok(object) && object@ == value,
                Err(error) => result matches Err(got) && got@ == error,
            },
    {
        match self.fields.get(&name.lexeme) {
            Some(value) => {
                return Ok(value.clone());
            },
            None => {},
        }
        match self.class.find_method(&name.lexeme) {
            Some(method) => match method.bind(handle, environment) {
                Some(function) => Ok(Object::Func(function)),
                None => Err(runtime_error(name, "Function scope is not of this interpreter.")),
            },
            None => {
                let mut message = String::from_str("Undefined property '");
                message.append(name.lexeme.as_str());
                message.append("'.");
                Err(Error::RuntimeError(name.clone(), message))
            },
        }
    }

    /// A new instance of `class`, without fields.
    pub fn new(class: Rc<LoxClass>) -> (instance: LoxInstance)
        ensures
            instance@ == (InstanceView { class: class@, fields: Map::empty() }),
    {
        LoxInstance { class, fields: NameMap::new() }
    }

    /// Writes the field `name`, whether or not the instance had it.
    pub fn set(&mut self, name: &String, value: &Object)
        ensures
            final(self)@ == (InstanceView {
                class: old(self)@.class,
                fields: old(self)@.fields.insert(name@, value@),
            }),
    {
        self.fields.insert(name.clone(), value.clone());
    }
}

} // verus!
