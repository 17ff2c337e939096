//! What a program means: the evaluation of expressions and the execution
//! of statements as mathematical functions on the state of an interpreter.
//!
//! A block and a call make a scope and let it go when they are over; the
//! scope stays where a function has closed over it, or where a scope made
//! after it has stayed.
//!
//! Evaluation is bounded by a budget. Every expression and every statement
//! costs one unit more than its parts, and every turn of a loop one unit
//! more than the turns that follow, so that the functions below are total:
//! where the budget does not reach, the outcome is the failure
//! [`ErrorView::Exhausted`].

use vstd::prelude::*;
use crate::callable::LoxFunction;
use crate::environment::{
    ancestor,
    bind,
    bind_at,
    capture,
    holder,
    lookup,
    lookup_at,
    nest,
    rebind,
    release,
    undefined_variable,
    ScopeView,
};
use crate::error::ErrorView;
use crate::expr::Expr;
use crate::lox_class::ClassView;
use crate::lox_instance::{bound, lost_scope, InstanceView};
use crate::object::Value;
use crate::stmt::{FunctionDecl, Stmt};
use crate::text::{decimal, signed_decimal};
use crate::token::Token;
use crate::token_type::TokenType;
use std::rc::Rc;

verus! {

/// The state of an interpreter.
pub struct State {
    /// The scopes that are there; the first is the global scope.
    pub scopes: Seq<ScopeView>,
    /// All instances made so far.
    pub instances: Seq<InstanceView>,
    /// The scope in which statements now run.
    pub current: usize,
    /// For each resolved expression, by its identifier, how many scopes
    /// out of the current one its name is bound.
    pub locals: Map<usize, usize>,
    /// The lines printed so far.
    pub output: Seq<Seq<char>>,
    /// The errors reported so far.
    pub reports: Seq<ErrorView>,
}

/// What an answer from outside the library is: the library does not tell
/// which one comes, only of which kind it is.
pub enum Answer {
    /// A floating-point number that the unit computed.
    Float,
    /// A truth value that the unit found by comparing floating-point
    /// numbers.
    Truth,
    /// What a reading of the clock yields for the call at this
    /// parenthesis: [`crate::callable::clock_outcome`] of some reading.
    Clock(Token),
}

/// How an evaluation ends.
pub enum Outcome<T> {
    /// With a result.
    Done(T),
    /// With an error.
    Failed(ErrorView),
    /// With an answer from outside as the result: which one is not the
    /// library's to tell, its kind and the state are.
    Outside(Answer),
    /// After an answer from outside was used: neither the result nor the
    /// state is the library's to tell.
    Beyond,
}

/// How an evaluation ends whose part ended otherwise than with a result:
/// with the error of the part, or beyond what the library can tell.
pub open spec fn passed<T, U>(part: Outcome<T>) -> Outcome<U> {
    match part {
        Outcome::Failed(error) => Outcome::Failed(error),
        _ => Outcome::Beyond,
    }
}

/// How the execution of a statement ends where it does not fail.
pub enum Flow {
    /// The next statement follows.
    Normal,
    /// A `return` is on its way to the call it ends, with its keyword and
    /// the value returned.
    Return(Token, Value),
}

/// A runtime error at `token`.
pub open spec fn runtime(token: Token, message: Seq<char>) -> ErrorView {
    ErrorView::RuntimeError(token, message)
}

/// The error of a call with the wrong number of arguments.
pub open spec fn arity_mismatch(paren: Token, expected: nat, got: nat) -> ErrorView {
    runtime(
        paren,
        "Expected "@ + decimal(expected) + " arguments but got "@ + decimal(got) + "."@,
    )
}

/// The quotient of two integers, rounded toward zero.
pub open spec fn truncated_quotient(x: int, d: int) -> int {
    if x == 0 {
        0
    } else if x > 0 && d > 0 {
        x / d
    } else if x < 0 && d < 0 {
        ((x * -1) / (d * -1))
    } else if x < 0 {
        ((x * -1) / d) * -1
    } else {
        (x / (d * -1)) * -1
    }
}

/// An integer result, where it fits the machine's integers.
pub open spec fn fitting(operator: Token, x: int) -> Outcome<Value> {
    if isize::MIN <= x <= isize::MAX {
        Outcome::Done(Value::Int(x as isize))
    } else {
        Outcome::Failed(runtime(operator, "Integer overflow."@))
    }
}

/// Whether two values are equal: scalars of one kind that agree. `None`
/// for two floating-point numbers.
pub open spec fn is_equal(left: Value, right: Value) -> Option<bool> {
    match (left, right) {
        (Value::Nil, Value::Nil) => Some(true),
        (Value::Bool(a), Value::Bool(b)) => Some(a == b),
        (Value::Str(a), Value::Str(b)) => Some(a == b),
        (Value::Int(a), Value::Int(b)) => Some(a == b),
        (Value::Float(_), Value::Float(_)) => None,
        _ => Some(false),
    }
}

/// Whether a value is a number.
pub open spec fn is_number(value: Value) -> bool {
    value is Int || value is Float
}

/// The result of an arithmetic or ordering operator on two integers.
pub open spec fn integer_binary(operator: Token, a: isize, b: isize) -> Outcome<Value> {
    match operator.token_type {
        TokenType::Greater => Outcome::Done(Value::Bool(a > b)),
        TokenType::GreaterEqual => Outcome::Done(Value::Bool(a >= b)),
        TokenType::Less => Outcome::Done(Value::Bool(a < b)),
        TokenType::LessEqual => Outcome::Done(Value::Bool(a <= b)),
        TokenType::Minus => fitting(operator, a - b),
        TokenType::Plus => fitting(operator, a + b),
        TokenType::Star => fitting(operator, a * b),
        _ => if b == 0 {
            Outcome::Failed(runtime(operator, "Division by zero."@))
        } else {
            fitting(operator, truncated_quotient(a as int, b as int))
        },
    }
}

/// The result of a binary operator on two values.
pub open spec fn binary(operator: Token, left: Value, right: Value) -> Outcome<Value> {
    match operator.token_type {
        TokenType::Greater
        | TokenType::GreaterEqual
        | TokenType::Less
        | TokenType::LessEqual
        | TokenType::Minus
        | TokenType::Plus
        | TokenType::Slash
        | TokenType::Star => match (left, right) {
            (Value::Int(a), Value::Int(b)) => integer_binary(operator, a, b),
            (Value::Str(a), Value::Str(b)) => if operator.token_type == TokenType::Plus {
                Outcome::Done(Value::Str(a + b))
            } else {
                Outcome::Failed(runtime(operator, "Operands must be numbers."@))
            },
            _ => if is_number(left) && is_number(right) {
                Outcome::Outside(
                    if operator.token_type == TokenType::Minus || operator.token_type
                        == TokenType::Plus || operator.token_type == TokenType::Slash
                        || operator.token_type == TokenType::Star {
                        Answer::Float
                    } else {
                        Answer::Truth
                    },
                )
            } else {
                Outcome::Failed(runtime(operator, "Operands must be numbers."@))
            },
        },
        TokenType::BangEqual => match is_equal(left, right) {
            Some(same) => Outcome::Done(Value::Bool(!same)),
            None => Outcome::Outside(Answer::Truth),
        },
        TokenType::EqualEqual => match is_equal(left, right) {
            Some(same) => Outcome::Done(Value::Bool(same)),
            None => Outcome::Outside(Answer::Truth),
        },
        _ => Outcome::Done(Value::Nil),
    }
}

/// The result of a unary operator on a value.
pub open spec fn unary(operator: Token, right: Value) -> Outcome<Value> {
    match operator.token_type {
        TokenType::Minus => match right {
            Value::Int(i) => fitting(operator, -i),
            Value::Float(_) => Outcome::Outside(Answer::Float),
            _ => Outcome::Failed(runtime(operator, "Operand must be a number."@)),
        },
        TokenType::Bang => Outcome::Done(Value::Bool(!right.truthy())),
        _ => Outcome::Done(Value::Nil),
    }
}

/// The text that `print` shows for a value. `None` for a floating-point
/// number.
pub open spec fn render(instances: Seq<InstanceView>, value: Value) -> Option<Seq<char>> {
    match value {
        Value::Nil => Some("nil"@),
        Value::Bool(b) => Some(
            if b {
                "true"@
            } else {
                "false"@
            },
        ),
        Value::Int(i) => Some(signed_decimal(i as int)),
        Value::Float(_) => None,
        Value::Str(s) => Some(s),
        Value::Func(function) => Some("<fn "@ + function.declaration.name.lexeme@ + ">"@),
        Value::Clock => Some("<native fn>"@),
        Value::Class(class) => Some(class.name),
        Value::Instance(handle) => Some(
            if handle < instances.len() {
                instances[handle as int].class.name + " instance"@
            } else {
                "instance"@
            },
        ),
    }
}

/// The state after a line is printed.
pub open spec fn printed(s: State, line: Seq<char>) -> State {
    State { output: s.output.push(line), ..s }
}

/// What a variable denotes: where the resolver found its binding, the value
/// that many scopes out of the current one; else its value in the global
/// scope.
pub open spec fn read_variable(s: State, name: Token, id: usize) -> Outcome<Value> {
    let found = if s.locals.contains_key(id) {
        lookup_at(s.scopes, s.current, s.locals[id] as nat, name.lexeme@)
    } else {
        lookup(s.scopes, 0, name.lexeme@)
    };
    match found {
        Some(value) => Outcome::Done(value),
        None => Outcome::Failed(undefined_variable(name)),
    }
}

/// The state after an assignment to a variable, and its outcome: the value
/// assigned, or an error where the variable has no binding to overwrite.
pub open spec fn write_variable(s: State, name: Token, id: usize, value: Value) -> (
    State,
    Outcome<Value>,
) {
    if s.locals.contains_key(id) {
        if ancestor(s.scopes, s.current, s.locals[id] as nat) is Some {
            (
                State {
                    scopes: bind_at(s.scopes, s.current, s.locals[id] as nat, name.lexeme@, value),
                    ..s
                },
                Outcome::Done(value),
            )
        } else {
            (s, Outcome::Failed(undefined_variable(name)))
        }
    } else if holder(s.scopes, 0, name.lexeme@) is Some {
        (State { scopes: rebind(s.scopes, 0, name.lexeme@, value), ..s }, Outcome::Done(value))
    } else {
        (s, Outcome::Failed(undefined_variable(name)))
    }
}

/// The scopes after each parameter from `from` on is bound in `scope` to
/// the argument at its place.
pub open spec fn bind_parameters(
    scopes: Seq<ScopeView>,
    scope: usize,
    params: Seq<Token>,
    arguments: Seq<Value>,
    from: nat,
) -> Seq<ScopeView>
    decreases params.len() - from,
{
    if from >= params.len() || from >= arguments.len() {
        scopes
    } else {
        bind_parameters(
            bind(scopes, scope, params[from as int].lexeme@, arguments[from as int]),
            scope,
            params,
            arguments,
            from + 1,
        )
    }
}

/// A method bound to an instance, as [`bound`] says, on the scopes of a
/// state.
pub open spec fn bind_method(s: State, method: LoxFunction, handle: usize) -> Option<
    (State, LoxFunction),
> {
    match bound(s.scopes, method, handle) {
        Some((scopes, function)) => Some((State { scopes, ..s }, function)),
        None => None,
    }
}

/// The methods that the declarations from `from` on add to `methods`, each
/// closed over `scope`; a later one of the same name replaces an earlier.
pub open spec fn declare_methods(
    methods: Map<Seq<char>, LoxFunction>,
    declarations: Seq<Rc<FunctionDecl>>,
    scope: usize,
    from: nat,
) -> Map<Seq<char>, LoxFunction>
    decreases declarations.len() - from,
{
    if from >= declarations.len() {
        methods
    } else {
        declare_methods(
            methods.insert(
                declarations[from as int].name.lexeme@,
                LoxFunction { declaration: declarations[from as int], closure: scope },
            ),
            declarations,
            scope,
            from + 1,
        )
    }
}

/// The value of an expression, and the state after its evaluation.
pub open spec fn eval(s: State, e: Expr, fuel: nat) -> (State, Outcome<Value>)
    decreases fuel, 0nat, 0nat,
{
    if fuel == 0 {
        (s, Outcome::Failed(ErrorView::Exhausted))
    } else {
        let f = (fuel - 1) as nat;
        match e {
            Expr::Literal { value } => (s, Outcome::Done(value@)),
            Expr::Grouping { expression } => eval(s, *expression, f),
            Expr::Unary { operator, right } => eval_unary(s, operator, *right, f),
            Expr::Binary { left, operator, right } => eval_binary(s, *left, operator, *right, f),
            Expr::Logical { left, operator, right } => eval_logical(
                s,
                *left,
                operator,
                *right,
                f,
            ),
            Expr::Variable { name, id } => (s, read_variable(s, name, id)),
            Expr::Assign { name, value, id } => eval_assign(s, name, *value, id, f),
            Expr::Call { callee, paren, arguments } => eval_call(s, *callee, paren, arguments, f),
            Expr::Get { object, name } => eval_get(s, *object, name, f),
            Expr::SetField { object, name, value } => eval_set(s, *object, name, *value, f),
            Expr::This { keyword, id } => (s, read_variable(s, keyword, id)),
        }
    }
}

/// A unary operator: the operand is evaluated, then the operator applied.
pub open spec fn eval_unary(s: State, operator: Token, right: Expr, fuel: nat) -> (
    State,
    Outcome<Value>,
)
    decreases fuel, 9nat, 0nat,
{
    match eval(s, right, fuel) {
        (s1, Outcome::Done(value)) => (s1, unary(operator, value)),
        (state, other) => (state, passed(other)),
    }
}

/// A binary operator: the left operand is evaluated, then the right, then
/// the operator applied.
pub open spec fn eval_binary(s: State, left: Expr, operator: Token, right: Expr, fuel: nat) -> (
    State,
    Outcome<Value>,
)
    decreases fuel, 9nat, 0nat,
{
    match eval(s, left, fuel) {
        (s1, Outcome::Done(a)) => match eval(s1, right, fuel) {
            (s2, Outcome::Done(b)) => (s2, binary(operator, a, b)),
            (state, other) => (state, passed(other)),
        },
        (state, other) => (state, passed(other)),
    }
}

/// Whether the left operand settles a logical operator: a true one
/// settles `or`, a false one `and`.
pub open spec fn short_circuits(operator: Token, left: Value) -> bool {
    if operator.token_type == TokenType::Or {
        left.truthy()
    } else {
        !left.truthy()
    }
}

/// `or` yields its left operand where that counts as true, `and` where it
/// counts as false, and the right operand is then not evaluated; else the
/// right operand is evaluated and yielded.
pub open spec fn eval_logical(s: State, left: Expr, operator: Token, right: Expr, fuel: nat) -> (
    State,
    Outcome<Value>,
)
    decreases fuel, 9nat, 0nat,
{
    match eval(s, left, fuel) {
        (s1, Outcome::Done(a)) => if short_circuits(operator, a) {
            (s1, Outcome::Done(a))
        } else {
            eval(s1, right, fuel)
        },
        (state, other) => (state, passed(other)),
    }
}

/// An assignment: the value is evaluated, then written.
pub open spec fn eval_assign(s: State, name: Token, value: Expr, id: usize, fuel: nat) -> (
    State,
    Outcome<Value>,
)
    decreases fuel, 9nat, 0nat,
{
    match eval(s, value, fuel) {
        (s1, Outcome::Done(v)) => write_variable(s1, name, id, v),
        (state, other) => (state, passed(other)),
    }
}

/// The values of the arguments from `from` on, after those in `done`,
/// evaluated from left to right.
pub open spec fn eval_arguments(
    s: State,
    arguments: Vec<Expr>,
    from: nat,
    done: Seq<Value>,
    fuel: nat,
) -> (State, Outcome<Seq<Value>>)
    decreases fuel, 1nat, arguments.len() - from,
{
    if from >= arguments.len() {
        (s, Outcome::Done(done))
    } else {
        match eval(s, arguments[from as int], fuel) {
            (s1, Outcome::Done(v)) => eval_arguments(s1, arguments, from + 1, done.push(v), fuel),
            (s1, Outcome::Failed(error)) => (s1, Outcome::Failed(error)),
            (s1, _) => (s1, Outcome::Beyond),
        }
    }
}

/// A call: the callee is evaluated, then the arguments, then the call made.
pub open spec fn eval_call(s: State, callee: Expr, paren: Token, arguments: Vec<Expr>, fuel: nat) -> (
    State,
    Outcome<Value>,
)
    decreases fuel, 9nat, 0nat,
{
    match eval(s, callee, fuel) {
        (s1, Outcome::Done(target)) => match eval_arguments(s1, arguments, 0, Seq::empty(), fuel) {
            (s2, Outcome::Done(values)) => call_value(s2, target, paren, values, fuel),
            (s2, Outcome::Failed(error)) => (s2, Outcome::Failed(error)),
            (s2, _) => (s2, Outcome::Beyond),
        },
        (state, other) => (state, passed(other)),
    }
}

/// The call of a value: only a function, the clock or a class can be
/// called, and only with as many arguments as it takes.
pub open spec fn call_value(
    s: State,
    target: Value,
    paren: Token,
    arguments: Seq<Value>,
    fuel: nat,
) -> (State, Outcome<Value>)
    decreases fuel, 8nat, 0nat,
{
    match target {
        Value::Func(function) => if arguments.len() != function.spec_arity() {
            (
                s,
                Outcome::Failed(arity_mismatch(paren, function.spec_arity(), arguments.len())),
            )
        } else {
            call_function(s, function, paren, arguments, fuel)
        },
        Value::Clock => if arguments.len() != 0 {
            (s, Outcome::Failed(arity_mismatch(paren, 0, arguments.len())))
        } else {
            (s, Outcome::Outside(Answer::Clock(paren)))
        },
        Value::Class(class) => if arguments.len() != class.arity() {
            (s, Outcome::Failed(arity_mismatch(paren, class.arity(), arguments.len())))
        } else {
            instantiate(s, class, paren, arguments, fuel)
        },
        _ => (s, Outcome::Failed(runtime(paren, "Can only call functions and classes."@))),
    }
}

/// The call of a function: a new scope is made inside the scope that the
/// function was declared in, the parameters are bound there to the
/// arguments, and the body runs in it; then the scope is let go. The call
/// yields what a `return` brought, and nil where the body ran to its end.
pub open spec fn call_function(
    s: State,
    function: LoxFunction,
    paren: Token,
    arguments: Seq<Value>,
    fuel: nat,
) -> (State, Outcome<Value>)
    decreases fuel, 5nat, 0nat,
{
    if function.closure >= s.scopes.len() {
        (s, Outcome::Failed(lost_scope(paren)))
    } else {
        let scope = s.scopes.len() as usize;
        let entered = State {
            scopes: bind_parameters(
                nest(s.scopes, function.closure),
                scope,
                function.declaration.params@,
                arguments,
                0,
            ),
            ..s
        };
        let (s1, outcome) = exec_block(entered, function.declaration.body, scope, fuel);
        (
            State { scopes: release(s1.scopes, scope), ..s1 },
            match outcome {
                Outcome::Done(Flow::Normal) => Outcome::Done(Value::Nil),
                Outcome::Done(Flow::Return(_, value)) => Outcome::Done(value),
                Outcome::Failed(error) => Outcome::Failed(error),
                _ => Outcome::Beyond,
            },
        )
    }
}

/// The call of a class: a new instance is made; where the class has an
/// initialiser, its own or inherited, that is bound to the instance and
/// called with the arguments, and what it returns is dropped. The call
/// yields the instance.
pub open spec fn instantiate(
    s: State,
    class: ClassView,
    paren: Token,
    arguments: Seq<Value>,
    fuel: nat,
) -> (State, Outcome<Value>)
    decreases fuel, 6nat, 0nat,
{
    let handle = s.instances.len() as usize;
    let made = State {
        instances: s.instances.push(InstanceView { class, fields: Map::empty() }),
        ..s
    };
    match class.find_method("init"@) {
        Some(initializer) => match bind_method(made, initializer, handle) {
            Some((bound_state, bound)) => match call_function(
                bound_state,
                bound,
                paren,
                arguments,
                fuel,
            ) {
                (s1, Outcome::Done(_)) => (s1, Outcome::Done(Value::Instance(handle))),
                (state, other) => (state, passed(other)),
            },
            None => (made, Outcome::Failed(lost_scope(paren))),
        },
        None => (made, Outcome::Done(Value::Instance(handle))),
    }
}

/// A property read: the object must be an instance; a field of that name
/// comes before a method, and a method is bound to the instance.
pub open spec fn eval_get(s: State, object: Expr, name: Token, fuel: nat) -> (State, Outcome<Value>)
    decreases fuel, 9nat, 0nat,
{
    match eval(s, object, fuel) {
        (s1, Outcome::Done(target)) => get_property(s1, target, name),
        (state, other) => (state, passed(other)),
    }
}

/// The property `name` of a value: that of an instance, as
/// [`InstanceView::get`] says; no other value has properties.
pub open spec fn get_property(s: State, target: Value, name: Token) -> (State, Outcome<Value>) {
    match target {
        Value::Instance(handle) => if handle < s.instances.len() {
            match s.instances[handle as int].get(name, handle, s.scopes) {
                (scopes, Ok(value)) => (State { scopes, ..s }, Outcome::Done(value)),
                (scopes, Err(error)) => (State { scopes, ..s }, Outcome::Failed(error)),
            }
        } else {
            (s, Outcome::Failed(runtime(name, "Only instances have properties."@)))
        },
        _ => (s, Outcome::Failed(runtime(name, "Only instances have properties."@))),
    }
}

/// A property write: the object is evaluated and must be an instance, then
/// the value is evaluated and written into the instance's own fields.
pub open spec fn eval_set(s: State, object: Expr, name: Token, value: Expr, fuel: nat) -> (
    State,
    Outcome<Value>,
)
    decreases fuel, 9nat, 0nat,
{
    match eval(s, object, fuel) {
        (s1, Outcome::Done(target)) => match target {
            Value::Instance(handle) => if handle < s1.instances.len() {
                match eval(s1, value, fuel) {
                    (s2, Outcome::Done(v)) => (set_field(s2, handle, name.lexeme@, v), Outcome::Done(v)),
                    (state, other) => (state, passed(other)),
                }
            } else {
                (s1, Outcome::Failed(runtime(name, "Only instances have fields."@)))
            },
            _ => (s1, Outcome::Failed(runtime(name, "Only instances have fields."@))),
        },
        (state, other) => (state, passed(other)),
    }
}

/// The state after a field of an instance is written.
pub open spec fn set_field(s: State, handle: usize, name: Seq<char>, value: Value) -> State {
    if handle < s.instances.len() {
        State {
            instances: s.instances.update(
                handle as int,
                InstanceView {
                    fields: s.instances[handle as int].fields.insert(name, value),
                    ..s.instances[handle as int]
                },
            ),
            ..s
        }
    } else {
        s
    }
}

/// The state after a statement, and how it ended.
pub open spec fn exec(s: State, statement: Stmt, fuel: nat) -> (State, Outcome<Flow>)
    decreases fuel, 0nat, 0nat,
{
    if fuel == 0 {
        (s, Outcome::Failed(ErrorView::Exhausted))
    } else {
        let f = (fuel - 1) as nat;
        match statement {
            Stmt::Expression { expression } => exec_expression(s, expression, f),
            Stmt::Print { expression } => exec_print(s, expression, f),
            Stmt::Var { name, initializer } => exec_var(s, name, initializer, f),
            Stmt::Block { statements } => exec_scoped(s, statements, f),
            Stmt::If { condition, then_branch, else_branch } => exec_if(
                s,
                condition,
                *then_branch,
                else_branch,
                f,
            ),
            Stmt::While { condition, body } => exec_while(s, condition, *body, f),
            Stmt::Function { declaration } => (
                State {
                    scopes: bind(
                        capture(s.scopes, s.current),
                        s.current,
                        declaration.name.lexeme@,
                        Value::Func(LoxFunction { declaration, closure: s.current }),
                    ),
                    ..s
                },
                Outcome::Done(Flow::Normal),
            ),
            Stmt::Return { keyword, value } => exec_return(s, keyword, value, f),
            Stmt::Class { name, superclass, methods } => exec_class(s, name, superclass, methods, f),
        }
    }
}

/// An expression statement: the expression is evaluated, and its value
/// printed where the current scope is one of an interactive session. A
/// floating-point number or a truth value from outside that is not
/// printed is dropped like any other value.
pub open spec fn exec_expression(s: State, expression: Expr, fuel: nat) -> (State, Outcome<Flow>)
    decreases fuel, 9nat, 0nat,
{
    match eval(s, expression, fuel) {
        (s1, Outcome::Done(value)) => if s1.current < s1.scopes.len()
            && s1.scopes[s1.current as int].is_repl {
            match render(s1.instances, value) {
                Some(line) => (printed(s1, line), Outcome::Done(Flow::Normal)),
                None => (s1, Outcome::Beyond),
            }
        } else {
            (s1, Outcome::Done(Flow::Normal))
        },
        (s1, Outcome::Failed(error)) => (s1, Outcome::Failed(error)),
        (s1, Outcome::Outside(answer)) => if !(answer is Clock) && !(s1.current < s1.scopes.len()
            && s1.scopes[s1.current as int].is_repl) {
            (s1, Outcome::Done(Flow::Normal))
        } else {
            (s1, Outcome::Beyond)
        },
        (s1, Outcome::Beyond) => (s1, Outcome::Beyond),
    }
}

/// `print`: the expression is evaluated and its text printed.
pub open spec fn exec_print(s: State, expression: Expr, fuel: nat) -> (State, Outcome<Flow>)
    decreases fuel, 9nat, 0nat,
{
    match eval(s, expression, fuel) {
        (s1, Outcome::Done(value)) => match render(s1.instances, value) {
            Some(line) => (printed(s1, line), Outcome::Done(Flow::Normal)),
            None => (s1, Outcome::Beyond),
        },
        (s1, Outcome::Failed(error)) => (s1, Outcome::Failed(error)),
        (s1, _) => (s1, Outcome::Beyond),
    }
}

/// `var`: the initialiser is evaluated and the name bound to its value in
/// the current scope.
pub open spec fn exec_var(s: State, name: Token, initializer: Expr, fuel: nat) -> (
    State,
    Outcome<Flow>,
)
    decreases fuel, 9nat, 0nat,
{
    match eval(s, initializer, fuel) {
        (s1, Outcome::Done(value)) => (
            State { scopes: bind(s1.scopes, s1.current, name.lexeme@, value), ..s1 },
            Outcome::Done(Flow::Normal),
        ),
        (s1, Outcome::Failed(error)) => (s1, Outcome::Failed(error)),
        (s1, _) => (s1, Outcome::Beyond),
    }
}

/// `return`: the value is evaluated and sent on its way.
pub open spec fn exec_return(s: State, keyword: Token, value: Expr, fuel: nat) -> (
    State,
    Outcome<Flow>,
)
    decreases fuel, 9nat, 0nat,
{
    match eval(s, value, fuel) {
        (s1, Outcome::Done(v)) => (s1, Outcome::Done(Flow::Return(keyword, v))),
        (s1, Outcome::Failed(error)) => (s1, Outcome::Failed(error)),
        (s1, _) => (s1, Outcome::Beyond),
    }
}

/// `if`: the condition is evaluated; where it counts as true the first
/// branch runs, else the second where there is one.
pub open spec fn exec_if(
    s: State,
    condition: Expr,
    then_branch: Stmt,
    else_branch: Option<Box<Stmt>>,
    fuel: nat,
) -> (State, Outcome<Flow>)
    decreases fuel, 9nat, 0nat,
{
    match eval(s, condition, fuel) {
        (s1, Outcome::Done(value)) => if value.truthy() {
            exec(s1, then_branch, fuel)
        } else {
            match else_branch {
                Some(other) => exec(s1, *other, fuel),
                None => (s1, Outcome::Done(Flow::Normal)),
            }
        },
        (s1, Outcome::Failed(error)) => (s1, Outcome::Failed(error)),
        (s1, _) => (s1, Outcome::Beyond),
    }
}

/// `while`: the condition is evaluated before every turn, and the body
/// runs, in the scope the loop stands in, as long as it counts as true.
pub open spec fn exec_while(s: State, condition: Expr, body: Stmt, fuel: nat) -> (
    State,
    Outcome<Flow>,
)
    decreases fuel, 9nat, 0nat,
{
    if fuel == 0 {
        (s, Outcome::Failed(ErrorView::Exhausted))
    } else {
        let f = (fuel - 1) as nat;
        match eval(s, condition, f) {
            (s1, Outcome::Done(value)) => if value.truthy() {
                match exec(s1, body, f) {
                    (s2, Outcome::Done(Flow::Normal)) => exec_while(s2, condition, body, f),
                    ended => ended,
                }
            } else {
                (s1, Outcome::Done(Flow::Normal))
            },
            (s1, Outcome::Failed(error)) => (s1, Outcome::Failed(error)),
            (s1, _) => (s1, Outcome::Beyond),
        }
    }
}

/// A class declaration: the class it extends, where it names one, is
/// evaluated and must be a class; the methods close over the current
/// scope; the name is bound to the class in the current scope.
pub open spec fn exec_class(
    s: State,
    name: Token,
    superclass: Option<Expr>,
    methods: Vec<Rc<FunctionDecl>>,
    fuel: nat,
) -> (State, Outcome<Flow>)
    decreases fuel, 9nat, 0nat,
{
    match superclass {
        Some(parent) => match eval(s, parent, fuel) {
            (s1, Outcome::Done(Value::Class(class))) => (
                declare_class(s1, name, Some(Box::new(class)), methods),
                Outcome::Done(Flow::Normal),
            ),
            (s1, Outcome::Done(_)) => (
                s1,
                Outcome::Failed(runtime(name, "Superclass must be a class."@)),
            ),
            (s1, Outcome::Failed(error)) => (s1, Outcome::Failed(error)),
            (s1, _) => (s1, Outcome::Beyond),
        },
        None => (declare_class(s, name, None, methods), Outcome::Done(Flow::Normal)),
    }
}

/// The state after a class is made and its name bound in the current scope.
pub open spec fn declare_class(
    s: State,
    name: Token,
    superclass: Option<Box<ClassView>>,
    methods: Vec<Rc<FunctionDecl>>,
) -> State {
    State {
        scopes: bind(
            capture(s.scopes, s.current),
            s.current,
            name.lexeme@,
            Value::Class(
                ClassView {
                    name: name.lexeme@,
                    superclass,
                    methods: declare_methods(Map::empty(), methods@, s.current, 0),
                },
            ),
        ),
        ..s
    }
}

/// The statements from `from` on, one after the other, until one fails or
/// returns.
pub open spec fn exec_list(s: State, statements: Vec<Stmt>, from: nat, fuel: nat) -> (
    State,
    Outcome<Flow>,
)
    decreases fuel, 2nat, statements.len() - from,
{
    if from >= statements.len() {
        (s, Outcome::Done(Flow::Normal))
    } else {
        match exec(s, statements[from as int], fuel) {
            (s1, Outcome::Done(Flow::Normal)) => exec_list(s1, statements, from + 1, fuel),
            ended => ended,
        }
    }
}

/// A block: its statements run in a new scope made inside the current
/// one, and the scope is let go when they are over.
pub open spec fn exec_scoped(s: State, statements: Vec<Stmt>, fuel: nat) -> (State, Outcome<Flow>)
    decreases fuel, 4nat, 0nat,
{
    let (s1, outcome) = exec_block(
        State { scopes: nest(s.scopes, s.current), ..s },
        statements,
        s.scopes.len() as usize,
        fuel,
    );
    (State { scopes: release(s1.scopes, s.scopes.len() as usize), ..s1 }, outcome)
}

/// The statements run with `scope` as the current scope; however they end,
/// the scope that was current before is current again.
pub open spec fn exec_block(s: State, statements: Vec<Stmt>, scope: usize, fuel: nat) -> (
    State,
    Outcome<Flow>,
)
    decreases fuel, 3nat, 0nat,
{
    let (s1, outcome) = exec_list(State { current: scope, ..s }, statements, 0, fuel);
    (State { current: s.current, ..s1 }, outcome)
}

/// The error of a `return` that reached the top of a program.
pub open spec fn stray_return(keyword: Token) -> ErrorView {
    runtime(keyword, "Cannot return from top-level code."@)
}

/// The state after a program's statements from `from` on have run. A
/// statement that fails is reported, and so is a `return` that no call
/// caught. After a failure an interactive session drops the statements
/// that follow, and a program read from a file goes on with the next one.
/// `None` where an outcome was not the library's to tell.
pub open spec fn run(s: State, statements: Vec<Stmt>, from: nat, fuel: nat) -> Option<State>
    decreases statements.len() - from, 1nat,
{
    if from >= statements.len() {
        Some(s)
    } else {
        match exec(s, statements[from as int], fuel) {
            (s1, Outcome::Done(Flow::Normal)) => run(s1, statements, from + 1, fuel),
            (s1, Outcome::Done(Flow::Return(keyword, _))) => after_failure(
                s1,
                stray_return(keyword),
                statements,
                from,
                fuel,
            ),
            (s1, Outcome::Failed(error)) => after_failure(s1, error, statements, from, fuel),
            (s1, _) => None,
        }
    }
}

/// The state after statement `from` has failed and the rest, where it is
/// to run, has run.
pub open spec fn after_failure(
    s: State,
    error: ErrorView,
    statements: Vec<Stmt>,
    from: nat,
    fuel: nat,
) -> Option<State>
    decreases statements.len() - from, 0nat,
    when from < statements.len()
{
    let reported = State { reports: s.reports.push(error), ..s };
    if s.current < s.scopes.len() && s.scopes[s.current as int].is_repl {
        Some(reported)
    } else {
        run(reported, statements, from + 1, fuel)
    }
}

} // verus!
