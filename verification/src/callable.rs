//! Function values and the native clock.

use vstd::prelude::*;
use std::rc::Rc;
use std::time::{Duration, SystemTime, SystemTimeError};
use crate::environment::{nest, Environment};
use crate::float_unit::FloatUnit;
use crate::interpreter::{follows, steady, valid, values_of, Interpreter};
use crate::lox_class::LoxClass;
use crate::operators::{answers, matches_reading};
use crate::semantics::{call_value, Answer};
use crate::error::{runtime_error, Error, ErrorView};
use crate::object::{Object, Value};
use crate::stmt::FunctionDecl;
use crate::token::{Literal, Token};

verus! {

/// Another handle on a shared value. Wraps `Rc::clone`, which hands back a
/// pointer to the same allocation: the value behind it is the value behind
/// the argument.
#[verifier::external_body]
pub(crate) fn share<T>(shared: &Rc<T>) -> (handle: Rc<T>)
    ensures
        handle == *shared,
{
    Rc::clone(shared)
}

/// A function of the program: its declaration and the scope it was
/// declared in, which its body reads and writes when it runs.
#[derive(Debug)]
pub struct LoxFunction {
    pub declaration: Rc<FunctionDecl>,
    pub closure: usize,
}

impl View for LoxFunction {
    type V = LoxFunction;

    open spec fn view(&self) -> LoxFunction {
        *self
    }
}

impl Clone for LoxFunction {
    fn clone(&self) -> (copy: Self)
        ensures
            copy == *self,
    {
        LoxFunction { declaration: share(&self.declaration), closure: self.closure }
    }
}

impl LoxFunction {
    /// The function that `declaration` makes when it is run in scope
    /// `closure`.
    pub fn new(declaration: Rc<FunctionDecl>, closure: usize) -> (function: LoxFunction)
        ensures
            function == (LoxFunction { declaration, closure }),
    {
        LoxFunction { declaration, closure }
    }

    /// The method bound to an instance: a new scope is made inside the
    /// method's own, `this` is bound there to the instance, and the
    /// function returned runs the same declaration in the new scope, which
    /// it closes over. The method itself is left as it was. `None`, and
    /// nothing made, where the method's scope is no scope of the
    /// environment.
    pub fn bind(&self, instance: usize, environment: &mut Environment) -> (bound: Option<LoxFunction>)
        ensures
            match crate::lox_instance::bound(old(environment)@, *self, instance) {
                Some((scopes, function)) => final(environment)@ == scopes && bound == Some(
                    function,
                ),
                None => final(environment)@ == old(environment)@ && bound is None,
            },
    {
        match environment.nest(self.closure) {
            Some(scope) => {
                environment.capture(scope);
                environment.define(scope, String::from_str("this"), &Object::Instance(instance));
                Some(LoxFunction { declaration: share(&self.declaration), closure: scope })
            },
            None => None,
        }
    }

    /// How many arguments a call must bring.
    pub open spec fn spec_arity(&self) -> nat {
        self.declaration.params@.len()
    }

}

/// A point in time by the system clock.
#[verifier::external_type_specification]
#[verifier::external_body]
pub struct ExSystemTime(std::time::SystemTime);

/// The failure of a clock that stands before the time it is compared with.
#[verifier::external_type_specification]
#[verifier::external_body]
pub struct ExSystemTimeError(std::time::SystemTimeError);

/// The time by the system clock. Wraps `SystemTime::now`; nothing is
/// claimed of the time that comes back.
#[verifier::external_body]
fn now() -> SystemTime {
    SystemTime::now()
}

/// The span from the Unix epoch to `time`, or the failure of a time before
/// the epoch. Wraps `SystemTime::duration_since`; nothing is claimed of
/// what comes back.
#[verifier::external_body]
fn since_epoch(time: &SystemTime) -> Result<Duration, SystemTimeError> {
    time.duration_since(SystemTime::UNIX_EPOCH)
}

/// The whole seconds of a span. Wraps `Duration::as_secs`; nothing is
/// claimed of the number that comes back.
#[verifier::external_body]
fn whole_seconds(span: &Duration) -> u64 {
    span.as_secs()
}

/// The one native function: it takes no argument and tells the time.
#[derive(Debug, Clone, Copy, PartialEq, Eq, Structural)]
pub struct Clock {}

/// What a call of the clock yields for a reading of whole seconds since
/// the epoch: the seconds as an integer, an error where they do not fit
/// one or where the clock stands before the epoch.
pub open spec fn clock_outcome(paren: Token, seconds: Option<u64>) -> Result<Value, ErrorView> {
    match seconds {
        Some(count) => if count <= isize::MAX {
            Ok(Value::Int(count as isize))
        } else {
            Err(ErrorView::RuntimeError(paren, "Integer overflow."@))
        },
        None => Err(ErrorView::RuntimeError(paren, "System time is before the Unix epoch."@)),
    }
}

impl Clock {
    /// What a call at `paren` yields for a reading of the clock.
    pub fn reading(paren: &Token, seconds: Option<u64>) -> (result: Result<Object, Error>)
        ensures
            match clock_outcome(*paren, seconds) {
                Ok(value) => result matches Ok(object) && object@ == value,
                Err(error) => result matches Err(got) && got@ == error,
            },
    {
        match seconds {
            Some(count) => if count <= isize::MAX as u64 {
                Ok(Object::Literal(Literal::Isize(count as isize)))
            } else {
                Err(runtime_error(paren, "Integer overflow."))
            },
            None => Err(runtime_error(paren, "System time is before the Unix epoch.")),
        }
    }

    /// Reads the system clock and yields the whole seconds since the Unix
    /// epoch. Whatever the clock says, the result is what [`clock_outcome`]
    /// gives for some reading.
    pub fn call(&self, paren: &Token) -> (result: Result<Object, Error>)
        ensures
            answers(result, Answer::Clock(*paren)),
    {
        let time = now();
        let seconds = match since_epoch(&time) {
            Ok(span) => Some(whole_seconds(&span)),
            Err(_) => None,
        };
        let result = Clock::reading(paren, seconds);
        assert(matches_reading(result, clock_outcome(*paren, seconds)));
        result
    }
}

/// What kind of function body the resolver is in.
#[derive(Debug, Clone, Copy, PartialEq, Eq, Structural)]
pub enum FunctionType {
    Outside,
    Function,
    Initializer,
    Method,
}

/// What can be called: a function, the clock, a class.
pub trait LoxCallable {
    /// The value that is called.
    spec fn callee(&self) -> Value;

    /// How many arguments a call must bring.
    fn arity(&self) -> (count: usize)
        ensures
            count == arity_of(self.callee()),
    ;

    /// The call with the values of the arguments, made at the parenthesis
    /// `paren` on the given interpreter: what
    /// [`crate::semantics::call_value`] says of the value that is called.
    fn call<F: FloatUnit>(
        &self,
        interpreter: &mut Interpreter,
        unit: &F,
        paren: &Token,
        arguments: Vec<Object>,
        fuel: u64,
    ) -> (result: Result<Object, Error>)
        requires
            valid(old(interpreter)@),
        ensures
            steady(old(interpreter)@, final(interpreter)@),
            follows(
                final(interpreter)@,
                result,
                call_value(
                    old(interpreter)@,
                    self.callee(),
                    *paren,
                    values_of(arguments@),
                    fuel as nat,
                ),
            ),
    ;
}

/// How many arguments a call of a value must bring.
pub open spec fn arity_of(target: Value) -> nat {
    match target {
        Value::Func(function) => function.spec_arity(),
        Value::Class(class) => class.arity(),
        _ => 0,
    }
}

impl LoxCallable for LoxFunction {
    open spec fn callee(&self) -> Value {
        Value::Func(*self)
    }

    fn arity(&self) -> (count: usize) {
        self.declaration.params.len()
    }

    fn call<F: FloatUnit>(
        &self,
        interpreter: &mut Interpreter,
        unit: &F,
        paren: &Token,
        arguments: Vec<Object>,
        fuel: u64,
    ) -> (result: Result<Object, Error>) {
        interpreter.call(unit, &Object::Func(self.clone()), paren, arguments, fuel)
    }
}

impl LoxCallable for Clock {
    open spec fn callee(&self) -> Value {
        Value::Clock
    }

    fn arity(&self) -> (count: usize) {
        0
    }

    fn call<F: FloatUnit>(
        &self,
        interpreter: &mut Interpreter,
        unit: &F,
        paren: &Token,
        arguments: Vec<Object>,
        fuel: u64,
    ) -> (result: Result<Object, Error>) {
        interpreter.call(unit, &Object::Clock(*self), paren, arguments, fuel)
    }
}

impl LoxCallable for Rc<LoxClass> {
    open spec fn callee(&self) -> Value {
        Value::Class(self@)
    }

    fn arity(&self) -> (count: usize) {
        LoxClass::arity(self)
    }

    fn call<F: FloatUnit>(
        &self,
        interpreter: &mut Interpreter,
        unit: &F,
        paren: &Token,
        arguments: Vec<Object>,
        fuel: u64,
    ) -> (result: Result<Object, Error>) {
        interpreter.call(unit, &Object::Class(share(self)), paren, arguments, fuel)
    }
}

} // verus!
