//! The states that evaluation reaches from a sound state are sound: every
//! scope and every instance that a value names is there, and a scope that
//! a function has closed over never leaves. So a function is never called
//! whose scope is gone.

use vstd::prelude::*;
use crate::callable::LoxFunction;
use crate::environment::{
    ancestor,
    bind,
    capture,
    holder,
    lookup,
    nest,
    release,
    undefined_variable,
    ScopeView,
};
use crate::error::ErrorView;
use crate::lox_class::ClassView;
use crate::lox_instance::{undefined_property, InstanceView};
use crate::object::Value;
use crate::semantics::{
    arity_mismatch,
    bind_method,
    bind_parameters,
    binary,
    declare_methods,
    runtime,
    unary,
    Flow,
    Outcome,
    State,
};
use crate::stmt::FunctionDecl;
use crate::token::Token;
use std::rc::Rc;

verus! {

/// The scope that the function closes over is one of the scopes, and noted
/// as closed over.
pub open spec fn closes(function: LoxFunction, scopes: Seq<ScopeView>) -> bool {
    function.closure < scopes.len() && scopes[function.closure as int].captured
}

/// Every scope of the first list that a function has closed over is a
/// scope of the second, and noted there as closed over.
pub open spec fn carries(before: Seq<ScopeView>, after: Seq<ScopeView>) -> bool {
    forall|i: int|
        0 <= i < before.len() && (#[trigger] before[i]).captured ==> i < after.len()
            && after[i].captured
}

/// Every method of the class and of the classes it extends closes over
/// one of the scopes.
pub open spec fn class_sound(class: ClassView, scopes: Seq<ScopeView>) -> bool
    decreases class,
{
    &&& forall|name: Seq<char>|
        class.methods.contains_key(name) ==> closes(#[trigger] class.methods[name], scopes)
    &&& match class.superclass {
        Some(parent) => class_sound(*parent, scopes),
        None => true,
    }
}

/// The scope or the instance that the value names, if it names one, is
/// among the scopes or the first `instances` instances.
pub open spec fn value_sound(value: Value, scopes: Seq<ScopeView>, instances: nat) -> bool {
    match value {
        Value::Func(function) => closes(function, scopes),
        Value::Class(class) => class_sound(class, scopes),
        Value::Instance(handle) => handle < instances,
        _ => true,
    }
}

/// Every value of the list is sound.
pub open spec fn values_sound(values: Seq<Value>, scopes: Seq<ScopeView>, instances: nat) -> bool {
    forall|i: int| 0 <= i < values.len() ==> value_sound(#[trigger] values[i], scopes, instances)
}

/// Every value bound in a scope is sound.
pub open spec fn scopes_sound(env: Seq<ScopeView>, instances: nat) -> bool {
    forall|i: int, name: Seq<char>|
        0 <= i < env.len() && env[i].values.contains_key(name) ==> value_sound(
            #[trigger] env[i].values[name],
            env,
            instances,
        )
}

/// The class and every field of every instance are sound.
pub open spec fn instances_sound(list: Seq<InstanceView>, scopes: Seq<ScopeView>) -> bool {
    &&& forall|j: int| 0 <= j < list.len() ==> class_sound((#[trigger] list[j]).class, scopes)
    &&& forall|j: int, name: Seq<char>|
        0 <= j < list.len() && list[j].fields.contains_key(name) ==> value_sound(
            #[trigger] list[j].fields[name],
            scopes,
            list.len(),
        )
}

/// A state is sound: its current scope is one of its scopes, and every
/// value in its scopes and its instances names scopes and instances that
/// are there.
pub open spec fn sound(s: State) -> bool {
    &&& s.current < s.scopes.len()
    &&& scopes_sound(s.scopes, s.instances.len())
    &&& instances_sound(s.instances, s.scopes)
}

/// A state follows a sound state and is sound: the current scope is the
/// same, no scope that was there before and no instance is gone, the
/// scopes that functions had closed over are noted as that, and the
/// reports are as they were.
pub open spec fn stays_sound(before: State, after: State) -> bool {
    &&& sound(after)
    &&& after.current == before.current
    &&& before.scopes.len() <= after.scopes.len()
    &&& carries(before.scopes, after.scopes)
    &&& before.instances.len() <= after.instances.len()
    &&& after.reports == before.reports
}

/// Whether an error is that of a function whose scope is gone.
pub open spec fn is_lost(error: ErrorView) -> bool {
    error matches ErrorView::RuntimeError(_, message) && message
        == "Function scope is not of this interpreter."@
}

/// An outcome is in order in a state: a value is sound there, and an
/// error is not that of a function whose scope is gone.
pub open spec fn in_order(s: State, outcome: Outcome<Value>) -> bool {
    match outcome {
        Outcome::Done(value) => value_sound(value, s.scopes, s.instances.len()),
        Outcome::Failed(error) => !is_lost(error),
        _ => true,
    }
}

/// As [`in_order`], of the outcome of a statement.
pub open spec fn flow_in_order(s: State, outcome: Outcome<Flow>) -> bool {
    match outcome {
        Outcome::Done(Flow::Return(_, value)) => value_sound(value, s.scopes, s.instances.len()),
        Outcome::Done(Flow::Normal) => true,
        Outcome::Failed(error) => !is_lost(error),
        _ => true,
    }
}

/// A sound class is sound among scopes that carry the ones it was sound
/// among.
pub proof fn lemma_class_grows(class: ClassView, scopes: Seq<ScopeView>, more: Seq<ScopeView>)
    requires
        class_sound(class, scopes),
        carries(scopes, more),
    ensures
        class_sound(class, more),
    decreases class,
{
    assert forall|name: Seq<char>| class.methods.contains_key(name) implies closes(
        #[trigger] class.methods[name],
        more,
    ) by {
        assert(closes(class.methods[name], scopes));
        assert(scopes[class.methods[name].closure as int].captured);
    }
    match class.superclass {
        Some(parent) => {
            lemma_class_grows(*parent, scopes, more);
        },
        None => {},
    }
}

/// A sound value is sound among scopes that carry the ones it was sound
/// among, and among more instances.
pub proof fn lemma_value_grows(
    value: Value,
    scopes: Seq<ScopeView>,
    instances: nat,
    more: Seq<ScopeView>,
    many: nat,
)
    requires
        value_sound(value, scopes, instances),
        carries(scopes, more),
        instances <= many,
    ensures
        value_sound(value, more, many),
{
    match value {
        Value::Class(class) => {
            lemma_class_grows(class, scopes, more);
        },
        Value::Func(function) => {
            assert(scopes[function.closure as int].captured);
        },
        _ => {},
    }
}

/// Sound values are sound among scopes that carry the ones they were
/// sound among, and among more instances.
pub proof fn lemma_values_grow(
    values: Seq<Value>,
    scopes: Seq<ScopeView>,
    instances: nat,
    more: Seq<ScopeView>,
    many: nat,
)
    requires
        values_sound(values, scopes, instances),
        carries(scopes, more),
        instances <= many,
    ensures
        values_sound(values, more, many),
{
    assert forall|i: int| 0 <= i < values.len() implies value_sound(
        #[trigger] values[i],
        more,
        many,
    ) by {
        lemma_value_grows(values[i], scopes, instances, more, many);
    }
}

/// The method that a sound class finds closes over a scope that is there.
pub proof fn lemma_method_sound(class: ClassView, name: Seq<char>, scopes: Seq<ScopeView>)
    requires
        class_sound(class, scopes),
    ensures
        match class.find_method(name) {
            Some(method) => closes(method, scopes),
            None => true,
        },
    decreases class,
{
    if !class.methods.contains_key(name) {
        match class.superclass {
            Some(parent) => {
                lemma_method_sound(*parent, name, scopes);
            },
            None => {},
        }
    }
}

/// Sound instances are sound among scopes that carry the ones they were
/// sound among.
pub proof fn lemma_instances_grow(
    list: Seq<InstanceView>,
    scopes: Seq<ScopeView>,
    more: Seq<ScopeView>,
)
    requires
        instances_sound(list, scopes),
        carries(scopes, more),
    ensures
        instances_sound(list, more),
{
    assert forall|j: int| 0 <= j < list.len() implies class_sound(
        (#[trigger] list[j]).class,
        more,
    ) by {
        lemma_class_grows(list[j].class, scopes, more);
    }
    assert forall|j: int, name: Seq<char>|
        0 <= j < list.len() && list[j].fields.contains_key(name) implies value_sound(
        #[trigger] list[j].fields[name],
        more,
        list.len(),
    ) by {
        lemma_value_grows(list[j].fields[name], scopes, list.len(), more, list.len());
    }
}

/// Sound scopes are sound among more instances.
pub proof fn lemma_scopes_grow(env: Seq<ScopeView>, instances: nat, many: nat)
    requires
        scopes_sound(env, instances),
        instances <= many,
    ensures
        scopes_sound(env, many),
{
    assert forall|i: int, name: Seq<char>|
        0 <= i < env.len() && env[i].values.contains_key(name) implies value_sound(
        #[trigger] env[i].values[name],
        env,
        many,
    ) by {
        lemma_value_grows(env[i].values[name], env, instances, env, many);
    }
}

/// Scopes that stand for the same scopes with other values, or for more
/// scopes, keep the values of sound scopes sound.
pub proof fn lemma_scopes_carry(env: Seq<ScopeView>, after: Seq<ScopeView>, instances: nat)
    requires
        scopes_sound(env, instances),
        carries(env, after),
        forall|i: int, name: Seq<char>|
            0 <= i < after.len() && #[trigger] after[i].values.contains_key(name) ==> (i
                < env.len() && env[i].values.contains_key(name) && env[i].values[name]
                == after[i].values[name]),
    ensures
        scopes_sound(after, instances),
{
    assert forall|i: int, name: Seq<char>|
        0 <= i < after.len() && after[i].values.contains_key(name) implies value_sound(
        #[trigger] after[i].values[name],
        after,
        instances,
    ) by {
        assert(i < env.len() && env[i].values.contains_key(name));
        assert(value_sound(env[i].values[name], env, instances));
        lemma_value_grows(env[i].values[name], env, instances, after, instances);
    }
}

/// A new scope keeps the scopes sound.
pub proof fn lemma_nest_sound(env: Seq<ScopeView>, instances: nat, enclosing: usize)
    requires
        scopes_sound(env, instances),
    ensures
        scopes_sound(nest(env, enclosing), instances),
        carries(env, nest(env, enclosing)),
{
    let nested = nest(env, enclosing);
    assert(carries(env, nested)) by {
        assert forall|i: int| 0 <= i < env.len() && (#[trigger] env[i]).captured implies i
            < nested.len() && nested[i].captured by {
            assert(nested[i] == env[i]);
        }
    }
    assert forall|i: int, name: Seq<char>|
        0 <= i < nested.len() && #[trigger] nested[i].values.contains_key(name) implies (i
        < env.len() && env[i].values.contains_key(name) && env[i].values[name]
        == nested[i].values[name]) by {
        if i < env.len() {
            assert(nested[i] == env[i]);
        }
    }
    lemma_scopes_carry(env, nested, instances);
}

/// Noting that a function has closed over a scope keeps the scopes sound.
pub proof fn lemma_capture_sound(env: Seq<ScopeView>, instances: nat, scope: usize)
    requires
        scopes_sound(env, instances),
    ensures
        scopes_sound(capture(env, scope), instances),
        carries(env, capture(env, scope)),
        scope < env.len() ==> capture(env, scope)[scope as int].captured,
{
    let after = capture(env, scope);
    assert(carries(env, after)) by {
        assert forall|i: int| 0 <= i < env.len() && (#[trigger] env[i]).captured implies i
            < after.len() && after[i].captured by {
            if i != scope {
                assert(after[i] == env[i]);
            }
        }
    }
    assert forall|i: int, name: Seq<char>|
        0 <= i < after.len() && #[trigger] after[i].values.contains_key(name) implies (i
        < env.len() && env[i].values.contains_key(name) && env[i].values[name]
        == after[i].values[name]) by {
        assert(after[i].values == env[i].values);
    }
    lemma_scopes_carry(env, after, instances);
}

/// Letting a scope go keeps the scopes sound.
pub proof fn lemma_release_sound(env: Seq<ScopeView>, instances: nat, scope: usize)
    requires
        scopes_sound(env, instances),
    ensures
        scopes_sound(release(env, scope), instances),
        carries(env, release(env, scope)),
{
    let after = release(env, scope);
    assert(carries(env, after)) by {
        assert forall|i: int| 0 <= i < env.len() && (#[trigger] env[i]).captured implies i
            < after.len() && after[i].captured by {
            if i < after.len() {
                assert(after[i] == env[i]);
            }
        }
    }
    assert forall|i: int, name: Seq<char>|
        0 <= i < after.len() && #[trigger] after[i].values.contains_key(name) implies (i
        < env.len() && env[i].values.contains_key(name) && env[i].values[name]
        == after[i].values[name]) by {
        assert(after[i] == env[i]);
    }
    lemma_scopes_carry(env, after, instances);
}

/// Binding a sound value keeps the scopes sound.
pub proof fn lemma_bind_sound(
    env: Seq<ScopeView>,
    instances: nat,
    scope: usize,
    name: Seq<char>,
    value: Value,
)
    requires
        scopes_sound(env, instances),
        value_sound(value, env, instances),
    ensures
        scopes_sound(bind(env, scope, name, value), instances),
        carries(env, bind(env, scope, name, value)),
        bind(env, scope, name, value).len() == env.len(),
{
    let after = bind(env, scope, name, value);
    assert(carries(env, after)) by {
        assert forall|i: int| 0 <= i < env.len() && (#[trigger] env[i]).captured implies i
            < after.len() && after[i].captured by {
            assert(after[i].captured == env[i].captured);
        }
    }
    assert forall|i: int, other: Seq<char>|
        0 <= i < after.len() && after[i].values.contains_key(other) implies value_sound(
        #[trigger] after[i].values[other],
        after,
        instances,
    ) by {
        if i == scope && other == name {
            lemma_value_grows(value, env, instances, after, instances);
        } else {
            assert(env[i].values.contains_key(other));
            assert(after[i].values[other] == env[i].values[other]);
            lemma_value_grows(env[i].values[other], env, instances, after, instances);
        }
    }
}

/// What a name means in sound scopes is sound.
pub proof fn lemma_lookup_sound(env: Seq<ScopeView>, instances: nat, scope: usize, name: Seq<char>)
    requires
        scopes_sound(env, instances),
    ensures
        match lookup(env, scope, name) {
            Some(value) => value_sound(value, env, instances),
            None => true,
        },
{
    crate::laws::lemma_holder_within(env, scope, name);
}

/// The relation of carrying goes on from scopes to scopes.
pub proof fn lemma_carries_on(a: Seq<ScopeView>, b: Seq<ScopeView>, c: Seq<ScopeView>)
    requires
        carries(a, b),
        carries(b, c),
    ensures
        carries(a, c),
{
    assert forall|i: int| 0 <= i < a.len() && (#[trigger] a[i]).captured implies i < c.len()
        && c[i].captured by {
        assert(b[i].captured);
    }
}

/// Binding sound arguments to the parameters keeps the scopes sound.
pub proof fn lemma_parameters_sound(
    env: Seq<ScopeView>,
    instances: nat,
    scope: usize,
    params: Seq<Token>,
    arguments: Seq<Value>,
    from: nat,
)
    requires
        scopes_sound(env, instances),
        values_sound(arguments, env, instances),
    ensures
        scopes_sound(bind_parameters(env, scope, params, arguments, from), instances),
        carries(env, bind_parameters(env, scope, params, arguments, from)),
        bind_parameters(env, scope, params, arguments, from).len() == env.len(),
    decreases params.len() - from,
{
    if !(from >= params.len() || from >= arguments.len()) {
        let next = bind(env, scope, params[from as int].lexeme@, arguments[from as int]);
        lemma_bind_sound(env, instances, scope, params[from as int].lexeme@, arguments[from as int]);
        lemma_values_grow(arguments, env, instances, next, instances);
        lemma_parameters_sound(next, instances, scope, params, arguments, from + 1);
        lemma_carries_on(env, next, bind_parameters(next, scope, params, arguments, from + 1));
    } else {
        assert(carries(env, env));
    }
}

/// The methods that a class declaration makes close over its scope.
pub proof fn lemma_methods_sound(
    methods: Map<Seq<char>, LoxFunction>,
    declarations: Seq<Rc<FunctionDecl>>,
    scope: usize,
    from: nat,
    scopes: Seq<ScopeView>,
)
    requires
        scope < scopes.len(),
        scopes[scope as int].captured,
        forall|name: Seq<char>| methods.contains_key(name) ==> closes(#[trigger] methods[name], scopes),
    ensures
        forall|name: Seq<char>|
            declare_methods(methods, declarations, scope, from).contains_key(name) ==> closes(
                #[trigger] declare_methods(methods, declarations, scope, from)[name],
                scopes,
            ),
    decreases declarations.len() - from,
{
    let made = declare_methods(methods, declarations, scope, from);
    if from < declarations.len() {
        let added = LoxFunction { declaration: declarations[from as int], closure: scope };
        let next = methods.insert(declarations[from as int].name.lexeme@, added);
        assert(closes(added, scopes));
        assert forall|name: Seq<char>| next.contains_key(name) implies closes(
            #[trigger] next[name],
            scopes,
        ) by {
            if name != declarations[from as int].name.lexeme@ {
                assert(methods.contains_key(name));
                assert(next[name] == methods[name]);
            }
        }
        lemma_methods_sound(next, declarations, scope, from + 1, scopes);
        assert(made == declare_methods(next, declarations, scope, from + 1));
    } else {
        assert(made == methods);
    }
    assert forall|name: Seq<char>| made.contains_key(name) implies closes(
        #[trigger] made[name],
        scopes,
    ) by {
    }
}

/// None of the errors of evaluation but one is that of a function whose
/// scope is gone.
pub proof fn lemma_other_errors(token: Token, expected: nat, got: nat)
    ensures
        !is_lost(runtime(token, "Operands must be numbers."@)),
        !is_lost(runtime(token, "Operand must be a number."@)),
        !is_lost(runtime(token, "Integer overflow."@)),
        !is_lost(runtime(token, "Division by zero."@)),
        !is_lost(runtime(token, "Can only call functions and classes."@)),
        !is_lost(runtime(token, "Only instances have properties."@)),
        !is_lost(runtime(token, "Only instances have fields."@)),
        !is_lost(runtime(token, "Superclass must be a class."@)),
        !is_lost(crate::semantics::stray_return(token)),
        !is_lost(undefined_variable(token)),
        !is_lost(undefined_property(token)),
        !is_lost(arity_mismatch(token, expected, got)),
        !is_lost(ErrorView::Exhausted),
{
    reveal_strlit("Function scope is not of this interpreter.");
    reveal_strlit("Operands must be numbers.");
    reveal_strlit("Operand must be a number.");
    reveal_strlit("Integer overflow.");
    reveal_strlit("Division by zero.");
    reveal_strlit("Can only call functions and classes.");
    reveal_strlit("Only instances have properties.");
    reveal_strlit("Only instances have fields.");
    reveal_strlit("Superclass must be a class.");
    reveal_strlit("Cannot return from top-level code.");
    reveal_strlit("Undefined variable '");
    reveal_strlit("Undefined property '");
    reveal_strlit("Expected ");
    let lost = "Function scope is not of this interpreter."@;
    assert(lost[0] == 'F');
    assert("Operands must be numbers."@[0] == 'O');
    assert("Operand must be a number."@[0] == 'O');
    assert("Integer overflow."@[0] == 'I');
    assert("Division by zero."@[0] == 'D');
    assert("Can only call functions and classes."@[0] == 'C');
    assert("Only instances have properties."@[0] == 'O');
    assert("Only instances have fields."@[0] == 'O');
    assert("Superclass must be a class."@[0] == 'S');
    assert("Cannot return from top-level code."@[0] == 'C');
    let variable = "Undefined variable '"@ + token.lexeme@ + "'."@;
    assert(variable[0] == 'U');
    let property = "Undefined property '"@ + token.lexeme@ + "'."@;
    assert(property[0] == 'U');
    let arity = "Expected "@ + crate::text::decimal(expected) + " arguments but got "@
        + crate::text::decimal(got) + "."@;
    assert(arity[0] == 'E');
}

/// The scope that a scope reaches outward is one of the scopes.
pub proof fn lemma_ancestor_within(env: Seq<ScopeView>, scope: usize, distance: nat)
    ensures
        match ancestor(env, scope, distance) {
            Some(at) => at < env.len(),
            None => true,
        },
    decreases distance,
{
    if scope < env.len() && distance > 0 {
        match env[scope as int].enclosing {
            Some(outer) => {
                lemma_ancestor_within(env, outer, (distance - 1) as nat);
            },
            None => {},
        }
    }
}

/// The outcome of an operator is in order.
pub proof fn lemma_operators_in_order(s: State, operator: Token, left: Value, right: Value)
    ensures
        in_order(s, binary(operator, left, right)),
        in_order(s, unary(operator, right)),
{
    lemma_other_errors(operator, 0, 0);
}

/// Reading a variable in a sound state yields a sound value.
pub proof fn lemma_read_variable(s: State, name: Token, id: usize)
    requires
        sound(s),
    ensures
        in_order(s, crate::semantics::read_variable(s, name, id)),
{
    lemma_other_errors(name, 0, 0);
    if s.locals.contains_key(id) {
        lemma_ancestor_within(s.scopes, s.current, s.locals[id] as nat);
    } else {
        lemma_lookup_sound(s.scopes, s.instances.len(), 0, name.lexeme@);
    }
}

/// Writing a sound value to a variable keeps the state sound.
pub proof fn lemma_write_variable(s: State, name: Token, id: usize, value: Value)
    requires
        sound(s),
        value_sound(value, s.scopes, s.instances.len()),
    ensures
        stays_sound(s, crate::semantics::write_variable(s, name, id, value).0),
        in_order(
            crate::semantics::write_variable(s, name, id, value).0,
            crate::semantics::write_variable(s, name, id, value).1,
        ),
{
    lemma_other_errors(name, 0, 0);
    assert(carries(s.scopes, s.scopes));
    let at = if s.locals.contains_key(id) {
        lemma_ancestor_within(s.scopes, s.current, s.locals[id] as nat);
        ancestor(s.scopes, s.current, s.locals[id] as nat)
    } else {
        holder(s.scopes, 0, name.lexeme@)
    };
    match at {
        Some(at) => {
            let after = bind(s.scopes, at, name.lexeme@, value);
            lemma_bind_sound(s.scopes, s.instances.len(), at, name.lexeme@, value);
            lemma_instances_grow(s.instances, s.scopes, after);
            lemma_value_grows(value, s.scopes, s.instances.len(), after, s.instances.len());
        },
        None => {},
    }
}

/// Binding a method that closes over a scope to an instance that is there
/// keeps the state sound and yields a function that closes over a scope.
pub proof fn lemma_bind_method(s: State, method: LoxFunction, handle: usize)
    requires
        sound(s),
        handle < s.instances.len(),
    ensures
        match bind_method(s, method, handle) {
            Some((after, function)) => stays_sound(s, after) && closes(function, after.scopes),
            None => method.closure >= s.scopes.len(),
        },
{
    if method.closure < s.scopes.len() {
        let fresh = s.scopes.len() as usize;
        let nested = nest(s.scopes, method.closure);
        lemma_nest_sound(s.scopes, s.instances.len(), method.closure);
        let noted = capture(nested, fresh);
        lemma_capture_sound(nested, s.instances.len(), fresh);
        let after = bind(noted, fresh, "this"@, Value::Instance(handle));
        lemma_bind_sound(noted, s.instances.len(), fresh, "this"@, Value::Instance(handle));
        lemma_carries_on(s.scopes, nested, noted);
        lemma_carries_on(s.scopes, noted, after);
        lemma_instances_grow(s.instances, s.scopes, after);
        assert(after[fresh as int].captured == noted[fresh as int].captured);
    }
}

/// Evaluation in a sound state ends in a sound state, with a sound value
/// or with an error that is not that of a function whose scope is gone.
pub proof fn law_eval_sound(s: State, e: crate::expr::Expr, fuel: nat)
    requires
        sound(s),
    ensures
        stays_sound(s, crate::semantics::eval(s, e, fuel).0),
        in_order(crate::semantics::eval(s, e, fuel).0, crate::semantics::eval(s, e, fuel).1),
    decreases fuel, 0nat, 0nat,
{
    lemma_other_errors(arbitrary(), 0, 0);
    assert(carries(s.scopes, s.scopes));
    if fuel > 0 {
        let f = (fuel - 1) as nat;
        match e {
            crate::expr::Expr::Literal { value } => {},
            crate::expr::Expr::Grouping { expression } => {
                law_eval_sound(s, *expression, f);
            },
            crate::expr::Expr::Unary { operator, right } => {
                lemma_eval_unary(s, operator, *right, f);
            },
            crate::expr::Expr::Binary { left, operator, right } => {
                lemma_eval_binary(s, *left, operator, *right, f);
            },
            crate::expr::Expr::Logical { left, operator, right } => {
                lemma_eval_logical(s, *left, operator, *right, f);
            },
            crate::expr::Expr::Variable { name, id } => {
                lemma_read_variable(s, name, id);
            },
            crate::expr::Expr::Assign { name, value, id } => {
                lemma_eval_assign(s, name, *value, id, f);
            },
            crate::expr::Expr::Call { callee, paren, arguments } => {
                lemma_eval_call(s, *callee, paren, &arguments, f);
            },
            crate::expr::Expr::Get { object, name } => {
                lemma_eval_get(s, *object, name, f);
            },
            crate::expr::Expr::SetField { object, name, value } => {
                lemma_eval_set(s, *object, name, *value, f);
            },
            crate::expr::Expr::This { keyword, id } => {
                lemma_read_variable(s, keyword, id);
            },
        }
    }
}

/// Two steps that each keep a state sound keep it sound together.
pub proof fn lemma_stays_on(a: State, b: State, c: State)
    requires
        stays_sound(a, b),
        stays_sound(b, c),
    ensures
        stays_sound(a, c),
{
    lemma_carries_on(a.scopes, b.scopes, c.scopes);
}

/// As [`law_eval_sound`], of a unary operator.
pub proof fn lemma_eval_unary(s: State, operator: Token, right: crate::expr::Expr, fuel: nat)
    requires
        sound(s),
    ensures
        stays_sound(s, crate::semantics::eval_unary(s, operator, right, fuel).0),
        in_order(
            crate::semantics::eval_unary(s, operator, right, fuel).0,
            crate::semantics::eval_unary(s, operator, right, fuel).1,
        ),
    decreases fuel, 9nat, 0nat,
{
    law_eval_sound(s, right, fuel);
    match crate::semantics::eval(s, right, fuel) {
        (s1, Outcome::Done(value)) => {
            lemma_operators_in_order(s1, operator, value, value);
        },
        _ => {},
    }
}

/// As [`law_eval_sound`], of a binary operator.
pub proof fn lemma_eval_binary(
    s: State,
    left: crate::expr::Expr,
    operator: Token,
    right: crate::expr::Expr,
    fuel: nat,
)
    requires
        sound(s),
    ensures
        stays_sound(s, crate::semantics::eval_binary(s, left, operator, right, fuel).0),
        in_order(
            crate::semantics::eval_binary(s, left, operator, right, fuel).0,
            crate::semantics::eval_binary(s, left, operator, right, fuel).1,
        ),
    decreases fuel, 9nat, 0nat,
{
    law_eval_sound(s, left, fuel);
    match crate::semantics::eval(s, left, fuel) {
        (s1, Outcome::Done(a)) => {
            law_eval_sound(s1, right, fuel);
            lemma_stays_on(s, s1, crate::semantics::eval(s1, right, fuel).0);
            match crate::semantics::eval(s1, right, fuel) {
                (s2, Outcome::Done(b)) => {
                    lemma_operators_in_order(s2, operator, a, b);
                },
                _ => {},
            }
        },
        _ => {},
    }
}

/// As [`law_eval_sound`], of a logical operator.
pub proof fn lemma_eval_logical(
    s: State,
    left: crate::expr::Expr,
    operator: Token,
    right: crate::expr::Expr,
    fuel: nat,
)
    requires
        sound(s),
    ensures
        stays_sound(s, crate::semantics::eval_logical(s, left, operator, right, fuel).0),
        in_order(
            crate::semantics::eval_logical(s, left, operator, right, fuel).0,
            crate::semantics::eval_logical(s, left, operator, right, fuel).1,
        ),
    decreases fuel, 9nat, 0nat,
{
    law_eval_sound(s, left, fuel);
    match crate::semantics::eval(s, left, fuel) {
        (s1, Outcome::Done(a)) => {
            if !crate::semantics::short_circuits(operator, a) {
                law_eval_sound(s1, right, fuel);
                lemma_stays_on(s, s1, crate::semantics::eval(s1, right, fuel).0);
            }
        },
        _ => {},
    }
}

/// As [`law_eval_sound`], of an assignment.
pub proof fn lemma_eval_assign(
    s: State,
    name: Token,
    value: crate::expr::Expr,
    id: usize,
    fuel: nat,
)
    requires
        sound(s),
    ensures
        stays_sound(s, crate::semantics::eval_assign(s, name, value, id, fuel).0),
        in_order(
            crate::semantics::eval_assign(s, name, value, id, fuel).0,
            crate::semantics::eval_assign(s, name, value, id, fuel).1,
        ),
    decreases fuel, 9nat, 0nat,
{
    law_eval_sound(s, value, fuel);
    match crate::semantics::eval(s, value, fuel) {
        (s1, Outcome::Done(v)) => {
            lemma_write_variable(s1, name, id, v);
            lemma_stays_on(s, s1, crate::semantics::write_variable(s1, name, id, v).0);
        },
        _ => {},
    }
}

/// As [`law_eval_sound`], of the arguments of a call: the values of those
/// evaluated before stay sound, and those of the others are sound.
pub proof fn lemma_eval_arguments(
    s: State,
    arguments: &Vec<crate::expr::Expr>,
    from: nat,
    done: Seq<Value>,
    fuel: nat,
)
    requires
        sound(s),
        values_sound(done, s.scopes, s.instances.len()),
    ensures
        stays_sound(s, crate::semantics::eval_arguments(s, *arguments, from, done, fuel).0),
        match crate::semantics::eval_arguments(s, *arguments, from, done, fuel) {
            (s1, Outcome::Done(values)) => values_sound(values, s1.scopes, s1.instances.len()),
            (s1, Outcome::Failed(error)) => !is_lost(error),
            (s1, _) => true,
        },
    decreases fuel, 1nat, arguments.len() - from,
{
    assert(carries(s.scopes, s.scopes));
    if from < arguments.len() {
        law_eval_sound(s, arguments[from as int], fuel);
        match crate::semantics::eval(s, arguments[from as int], fuel) {
            (s1, Outcome::Done(v)) => {
                lemma_values_grow(done, s.scopes, s.instances.len(), s1.scopes, s1.instances.len());
                lemma_eval_arguments(s1, arguments, from + 1, done.push(v), fuel);
                lemma_stays_on(
                    s,
                    s1,
                    crate::semantics::eval_arguments(s1, *arguments, from + 1, done.push(v), fuel).0,
                );
            },
            _ => {},
        }
    }
}

/// As [`law_eval_sound`], of a call.
pub proof fn lemma_eval_call(
    s: State,
    callee: crate::expr::Expr,
    paren: Token,
    arguments: &Vec<crate::expr::Expr>,
    fuel: nat,
)
    requires
        sound(s),
    ensures
        stays_sound(s, crate::semantics::eval_call(s, callee, paren, *arguments, fuel).0),
        in_order(
            crate::semantics::eval_call(s, callee, paren, *arguments, fuel).0,
            crate::semantics::eval_call(s, callee, paren, *arguments, fuel).1,
        ),
    decreases fuel, 9nat, 0nat,
{
    law_eval_sound(s, callee, fuel);
    match crate::semantics::eval(s, callee, fuel) {
        (s1, Outcome::Done(target)) => {
            lemma_eval_arguments(s1, arguments, 0, Seq::empty(), fuel);
            let listed = crate::semantics::eval_arguments(s1, *arguments, 0, Seq::empty(), fuel);
            lemma_stays_on(s, s1, listed.0);
            match listed {
                (s2, Outcome::Done(values)) => {
                    lemma_value_grows(
                        target,
                        s1.scopes,
                        s1.instances.len(),
                        s2.scopes,
                        s2.instances.len(),
                    );
                    law_call_sound(s2, target, paren, values, fuel);
                    lemma_stays_on(
                        s,
                        s2,
                        crate::semantics::call_value(s2, target, paren, values, fuel).0,
                    );
                },
                _ => {},
            }
        },
        _ => {},
    }
}

/// The call of a sound value with sound arguments in a sound state ends
/// in a sound state, with a sound value or with an error that is not
/// that of a function whose scope is gone.
pub proof fn law_call_sound(s: State, target: Value, paren: Token, arguments: Seq<Value>, fuel: nat)
    requires
        sound(s),
        value_sound(target, s.scopes, s.instances.len()),
        values_sound(arguments, s.scopes, s.instances.len()),
    ensures
        stays_sound(s, crate::semantics::call_value(s, target, paren, arguments, fuel).0),
        in_order(
            crate::semantics::call_value(s, target, paren, arguments, fuel).0,
            crate::semantics::call_value(s, target, paren, arguments, fuel).1,
        ),
    decreases fuel, 8nat, 0nat,
{
    lemma_other_errors(paren, 0, 0);
    assert(carries(s.scopes, s.scopes));
    match target {
        Value::Func(function) => {
            lemma_other_errors(paren, function.spec_arity(), arguments.len());
            if arguments.len() == function.spec_arity() {
                lemma_call_function(s, function, paren, arguments, fuel);
            }
        },
        Value::Clock => {
            lemma_other_errors(paren, 0, arguments.len());
        },
        Value::Class(class) => {
            lemma_other_errors(paren, class.arity(), arguments.len());
            if arguments.len() == class.arity() {
                lemma_instantiate(s, class, paren, arguments, fuel);
            }
        },
        _ => {},
    }
}

/// What statements, given by reference, do when run in a scope.
pub open spec fn block_of(
    s: State,
    statements: &Vec<crate::stmt::Stmt>,
    scope: usize,
    fuel: nat,
) -> (State, Outcome<Flow>) {
    crate::semantics::exec_block(s, *statements, scope, fuel)
}

/// As [`law_call_sound`], of the call of a function.
pub proof fn lemma_call_function(
    s: State,
    function: LoxFunction,
    paren: Token,
    arguments: Seq<Value>,
    fuel: nat,
)
    requires
        sound(s),
        function.closure < s.scopes.len(),
        values_sound(arguments, s.scopes, s.instances.len()),
    ensures
        stays_sound(s, crate::semantics::call_function(s, function, paren, arguments, fuel).0),
        in_order(
            crate::semantics::call_function(s, function, paren, arguments, fuel).0,
            crate::semantics::call_function(s, function, paren, arguments, fuel).1,
        ),
    decreases fuel, 5nat, 0nat,
{
    let scope = s.scopes.len() as usize;
    let nested = nest(s.scopes, function.closure);
    lemma_nest_sound(s.scopes, s.instances.len(), function.closure);
    lemma_values_grow(arguments, s.scopes, s.instances.len(), nested, s.instances.len());
    lemma_parameters_sound(
        nested,
        s.instances.len(),
        scope,
        function.declaration.params@,
        arguments,
        0,
    );
    let bound_scopes = bind_parameters(nested, scope, function.declaration.params@, arguments, 0);
    lemma_carries_on(s.scopes, nested, bound_scopes);
    lemma_instances_grow(s.instances, s.scopes, bound_scopes);
    let entered = State { scopes: bound_scopes, ..s };
    lemma_exec_block(entered, &function.declaration.body, scope, fuel);
    let (s1, outcome) = block_of(entered, &function.declaration.body, scope, fuel);
    lemma_released(s, entered, s1, scope);
    match outcome {
        Outcome::Done(Flow::Return(_, value)) => {
            lemma_value_grows(
                value,
                s1.scopes,
                s1.instances.len(),
                release(s1.scopes, scope),
                s1.instances.len(),
            );
        },
        _ => {},
    }
}

/// Letting go the scope that a block or a call made keeps the state
/// sound: `entered` is the state `s` with that scope and some values
/// more, and `after` the state at the end of the block or the call.
pub proof fn lemma_released(s: State, entered: State, after: State, scope: usize)
    requires
        sound(s),
        scope == s.scopes.len() as usize,
        entered.current == s.current,
        entered.instances == s.instances,
        entered.reports == s.reports,
        entered.scopes.len() == s.scopes.len() + 1,
        carries(s.scopes, entered.scopes),
        stays_sound(entered, after),
    ensures
        stays_sound(s, State { scopes: release(after.scopes, scope), ..after }),
        carries(after.scopes, release(after.scopes, scope)),
{
    let left = release(after.scopes, scope);
    lemma_release_sound(after.scopes, after.instances.len(), scope);
    lemma_instances_grow(after.instances, after.scopes, left);
    lemma_carries_on(s.scopes, entered.scopes, after.scopes);
    lemma_carries_on(s.scopes, after.scopes, left);
    if left.len() != after.scopes.len() {
        assert(scope + 1 == after.scopes.len());
        assert(s.scopes.len() <= usize::MAX);
    }
}

/// As [`law_call_sound`], of the call of a class.
pub proof fn lemma_instantiate(
    s: State,
    class: ClassView,
    paren: Token,
    arguments: Seq<Value>,
    fuel: nat,
)
    requires
        sound(s),
        class_sound(class, s.scopes),
        values_sound(arguments, s.scopes, s.instances.len()),
    ensures
        stays_sound(s, crate::semantics::instantiate(s, class, paren, arguments, fuel).0),
        in_order(
            crate::semantics::instantiate(s, class, paren, arguments, fuel).0,
            crate::semantics::instantiate(s, class, paren, arguments, fuel).1,
        ),
    decreases fuel, 6nat, 0nat,
{
    let handle = s.instances.len() as usize;
    let made = State {
        instances: s.instances.push(InstanceView { class, fields: Map::empty() }),
        ..s
    };
    assert(carries(s.scopes, s.scopes));
    lemma_scopes_grow(s.scopes, s.instances.len(), made.instances.len());
    assert(instances_sound(made.instances, made.scopes)) by {
        assert forall|j: int| 0 <= j < made.instances.len() implies class_sound(
            (#[trigger] made.instances[j]).class,
            made.scopes,
        ) by {
            if j < s.instances.len() {
                assert(made.instances[j] == s.instances[j]);
            }
        }
        assert forall|j: int, name: Seq<char>|
            0 <= j < made.instances.len() && made.instances[j].fields.contains_key(
                name,
            ) implies value_sound(
            #[trigger] made.instances[j].fields[name],
            made.scopes,
            made.instances.len(),
        ) by {
            if j < s.instances.len() {
                assert(made.instances[j] == s.instances[j]);
                lemma_value_grows(
                    s.instances[j].fields[name],
                    s.scopes,
                    s.instances.len(),
                    made.scopes,
                    made.instances.len(),
                );
            }
        }
    }
    assert(stays_sound(s, made));
    lemma_method_sound(class, "init"@, s.scopes);
    match class.find_method("init"@) {
        Some(initializer) => {
            lemma_bind_method(made, initializer, handle);
            match bind_method(made, initializer, handle) {
                Some((bound_state, function)) => {
                    lemma_values_grow(
                        arguments,
                        s.scopes,
                        s.instances.len(),
                        bound_state.scopes,
                        bound_state.instances.len(),
                    );
                    lemma_call_function(bound_state, function, paren, arguments, fuel);
                    let called = crate::semantics::call_function(
                        bound_state,
                        function,
                        paren,
                        arguments,
                        fuel,
                    ).0;
                    lemma_stays_on(made, bound_state, called);
                    lemma_stays_on(s, made, called);
                },
                None => {},
            }
        },
        None => {},
    }
}

/// As [`law_eval_sound`], of a property read.
pub proof fn lemma_eval_get(s: State, object: crate::expr::Expr, name: Token, fuel: nat)
    requires
        sound(s),
    ensures
        stays_sound(s, crate::semantics::eval_get(s, object, name, fuel).0),
        in_order(
            crate::semantics::eval_get(s, object, name, fuel).0,
            crate::semantics::eval_get(s, object, name, fuel).1,
        ),
    decreases fuel, 9nat, 0nat,
{
    law_eval_sound(s, object, fuel);
    match crate::semantics::eval(s, object, fuel) {
        (s1, Outcome::Done(target)) => {
            lemma_get_property(s1, target, name);
            lemma_stays_on(s, s1, crate::semantics::get_property(s1, target, name).0);
        },
        _ => {},
    }
}

/// Reading a property in a sound state ends in a sound state, with a
/// sound value or with an error that is not that of a function whose
/// scope is gone.
pub proof fn lemma_get_property(s: State, target: Value, name: Token)
    requires
        sound(s),
    ensures
        stays_sound(s, crate::semantics::get_property(s, target, name).0),
        in_order(
            crate::semantics::get_property(s, target, name).0,
            crate::semantics::get_property(s, target, name).1,
        ),
{
    lemma_other_errors(name, 0, 0);
    assert(carries(s.scopes, s.scopes));
    match target {
        Value::Instance(handle) => {
            if handle < s.instances.len() {
                let instance = s.instances[handle as int];
                if !instance.fields.contains_key(name.lexeme@) {
                    lemma_method_sound(instance.class, name.lexeme@, s.scopes);
                    match instance.class.find_method(name.lexeme@) {
                        Some(method) => {
                            lemma_bind_method(s, method, handle);
                        },
                        None => {},
                    }
                }
            }
        },
        _ => {},
    }
}

/// As [`law_eval_sound`], of a property write.
pub proof fn lemma_eval_set(
    s: State,
    object: crate::expr::Expr,
    name: Token,
    value: crate::expr::Expr,
    fuel: nat,
)
    requires
        sound(s),
    ensures
        stays_sound(s, crate::semantics::eval_set(s, object, name, value, fuel).0),
        in_order(
            crate::semantics::eval_set(s, object, name, value, fuel).0,
            crate::semantics::eval_set(s, object, name, value, fuel).1,
        ),
    decreases fuel, 9nat, 0nat,
{
    lemma_other_errors(name, 0, 0);
    law_eval_sound(s, object, fuel);
    match crate::semantics::eval(s, object, fuel) {
        (s1, Outcome::Done(Value::Instance(handle))) => {
            if handle < s1.instances.len() {
                law_eval_sound(s1, value, fuel);
                lemma_stays_on(s, s1, crate::semantics::eval(s1, value, fuel).0);
                match crate::semantics::eval(s1, value, fuel) {
                    (s2, Outcome::Done(v)) => {
                        lemma_set_field(s2, handle, name.lexeme@, v);
                        lemma_stays_on(
                            s,
                            s2,
                            crate::semantics::set_field(s2, handle, name.lexeme@, v),
                        );
                    },
                    _ => {},
                }
            }
        },
        _ => {},
    }
}

/// Writing a sound value to a field keeps the state sound.
pub proof fn lemma_set_field(s: State, handle: usize, name: Seq<char>, value: Value)
    requires
        sound(s),
        value_sound(value, s.scopes, s.instances.len()),
    ensures
        stays_sound(s, crate::semantics::set_field(s, handle, name, value)),
{
    let after = crate::semantics::set_field(s, handle, name, value);
    assert(carries(s.scopes, s.scopes));
    if handle < s.instances.len() {
        assert forall|j: int| 0 <= j < after.instances.len() implies class_sound(
            (#[trigger] after.instances[j]).class,
            after.scopes,
        ) by {
            assert(after.instances[j].class == s.instances[j].class);
        }
        assert forall|j: int, other: Seq<char>|
            0 <= j < after.instances.len() && after.instances[j].fields.contains_key(
                other,
            ) implies value_sound(
            #[trigger] after.instances[j].fields[other],
            after.scopes,
            after.instances.len(),
        ) by {
            if j == handle && other == name {
            } else {
                assert(s.instances[j].fields.contains_key(other));
                assert(after.instances[j].fields[other] == s.instances[j].fields[other]);
            }
        }
    }
}

/// Binding a sound value in the current scope, after noting or not that a
/// function has closed over that scope, keeps the state sound.
pub proof fn lemma_declare(s: State, name: Seq<char>, value: Value, noted: bool)
    requires
        sound(s),
        value_sound(
            value,
            if noted {
                capture(s.scopes, s.current)
            } else {
                s.scopes
            },
            s.instances.len(),
        ),
    ensures
        stays_sound(
            s,
            State {
                scopes: bind(
                    if noted {
                        capture(s.scopes, s.current)
                    } else {
                        s.scopes
                    },
                    s.current,
                    name,
                    value,
                ),
                ..s
            },
        ),
{
    let base = if noted {
        capture(s.scopes, s.current)
    } else {
        s.scopes
    };
    lemma_capture_sound(s.scopes, s.instances.len(), s.current);
    assert(carries(s.scopes, s.scopes));
    let after = bind(base, s.current, name, value);
    lemma_bind_sound(base, s.instances.len(), s.current, name, value);
    lemma_carries_on(s.scopes, base, after);
    lemma_instances_grow(s.instances, s.scopes, after);
}

/// The execution of a statement in a sound state ends in a sound state,
/// and what it returns is sound.
pub proof fn law_exec_sound(s: State, statement: crate::stmt::Stmt, fuel: nat)
    requires
        sound(s),
    ensures
        stays_sound(s, crate::semantics::exec(s, statement, fuel).0),
        flow_in_order(
            crate::semantics::exec(s, statement, fuel).0,
            crate::semantics::exec(s, statement, fuel).1,
        ),
    decreases fuel, 0nat, 0nat,
{
    lemma_other_errors(arbitrary(), 0, 0);
    assert(carries(s.scopes, s.scopes));
    if fuel > 0 {
        let f = (fuel - 1) as nat;
        match statement {
            crate::stmt::Stmt::Expression { expression } => {
                law_eval_sound(s, expression, f);
            },
            crate::stmt::Stmt::Print { expression } => {
                law_eval_sound(s, expression, f);
            },
            crate::stmt::Stmt::Var { name, initializer } => {
                law_eval_sound(s, initializer, f);
                match crate::semantics::eval(s, initializer, f) {
                    (s1, Outcome::Done(value)) => {
                        lemma_declare(s1, name.lexeme@, value, false);
                        lemma_stays_on(
                            s,
                            s1,
                            State {
                                scopes: bind(s1.scopes, s1.current, name.lexeme@, value),
                                ..s1
                            },
                        );
                    },
                    _ => {},
                }
            },
            crate::stmt::Stmt::Block { statements } => {
                lemma_exec_scoped(s, &statements, f);
            },
            crate::stmt::Stmt::If { condition, then_branch, else_branch } => {
                law_eval_sound(s, condition, f);
                match crate::semantics::eval(s, condition, f) {
                    (s1, Outcome::Done(value)) => {
                        if value.truthy() {
                            law_exec_sound(s1, *then_branch, f);
                            lemma_stays_on(s, s1, crate::semantics::exec(s1, *then_branch, f).0);
                        } else {
                            match else_branch {
                                Some(other) => {
                                    law_exec_sound(s1, *other, f);
                                    lemma_stays_on(s, s1, crate::semantics::exec(s1, *other, f).0);
                                },
                                None => {},
                            }
                        }
                    },
                    _ => {},
                }
            },
            crate::stmt::Stmt::While { condition, body } => {
                lemma_exec_while(s, condition, *body, f);
            },
            crate::stmt::Stmt::Function { declaration } => {
                lemma_capture_sound(s.scopes, s.instances.len(), s.current);
                lemma_declare(
                    s,
                    declaration.name.lexeme@,
                    Value::Func(LoxFunction { declaration, closure: s.current }),
                    true,
                );
            },
            crate::stmt::Stmt::Return { keyword, value } => {
                law_eval_sound(s, value, f);
            },
            crate::stmt::Stmt::Class { name, superclass, methods } => {
                lemma_exec_class(s, name, superclass, &methods, f);
            },
        }
    }
}

/// As [`law_exec_sound`], of a block.
pub proof fn lemma_exec_scoped(s: State, statements: &Vec<crate::stmt::Stmt>, fuel: nat)
    requires
        sound(s),
    ensures
        stays_sound(s, crate::semantics::exec_scoped(s, *statements, fuel).0),
        flow_in_order(
            crate::semantics::exec_scoped(s, *statements, fuel).0,
            crate::semantics::exec_scoped(s, *statements, fuel).1,
        ),
    decreases fuel, 4nat, 0nat,
{
    let scope = s.scopes.len() as usize;
    let nested = nest(s.scopes, s.current);
    lemma_nest_sound(s.scopes, s.instances.len(), s.current);
    lemma_instances_grow(s.instances, s.scopes, nested);
    let entered = State { scopes: nested, ..s };
    lemma_exec_block(entered, statements, scope, fuel);
    let (s1, outcome) = block_of(entered, statements, scope, fuel);
    lemma_released(s, entered, s1, scope);
    match outcome {
        Outcome::Done(Flow::Return(_, value)) => {
            lemma_value_grows(
                value,
                s1.scopes,
                s1.instances.len(),
                release(s1.scopes, scope),
                s1.instances.len(),
            );
        },
        _ => {},
    }
}

/// As [`law_exec_sound`], of a `while` loop.
pub proof fn lemma_exec_while(
    s: State,
    condition: crate::expr::Expr,
    body: crate::stmt::Stmt,
    fuel: nat,
)
    requires
        sound(s),
    ensures
        stays_sound(s, crate::semantics::exec_while(s, condition, body, fuel).0),
        flow_in_order(
            crate::semantics::exec_while(s, condition, body, fuel).0,
            crate::semantics::exec_while(s, condition, body, fuel).1,
        ),
    decreases fuel, 9nat, 0nat,
{
    lemma_other_errors(arbitrary(), 0, 0);
    assert(carries(s.scopes, s.scopes));
    if fuel > 0 {
        let f = (fuel - 1) as nat;
        law_eval_sound(s, condition, f);
        match crate::semantics::eval(s, condition, f) {
            (s1, Outcome::Done(value)) => {
                if value.truthy() {
                    law_exec_sound(s1, body, f);
                    lemma_stays_on(s, s1, crate::semantics::exec(s1, body, f).0);
                    match crate::semantics::exec(s1, body, f) {
                        (s2, Outcome::Done(Flow::Normal)) => {
                            lemma_exec_while(s2, condition, body, f);
                            lemma_stays_on(
                                s,
                                s2,
                                crate::semantics::exec_while(s2, condition, body, f).0,
                            );
                        },
                        _ => {},
                    }
                }
            },
            _ => {},
        }
    }
}

/// As [`law_exec_sound`], of a class declaration.
pub proof fn lemma_exec_class(
    s: State,
    name: Token,
    superclass: Option<crate::expr::Expr>,
    methods: &Vec<Rc<FunctionDecl>>,
    fuel: nat,
)
    requires
        sound(s),
    ensures
        stays_sound(s, crate::semantics::exec_class(s, name, superclass, *methods, fuel).0),
        flow_in_order(
            crate::semantics::exec_class(s, name, superclass, *methods, fuel).0,
            crate::semantics::exec_class(s, name, superclass, *methods, fuel).1,
        ),
    decreases fuel, 9nat, 0nat,
{
    lemma_other_errors(name, 0, 0);
    match superclass {
        Some(parent) => {
            law_eval_sound(s, parent, fuel);
            match crate::semantics::eval(s, parent, fuel) {
                (s1, Outcome::Done(Value::Class(class))) => {
                    lemma_declare_class(s1, name, Some(Box::new(class)), methods);
                    lemma_stays_on(
                        s,
                        s1,
                        crate::semantics::declare_class(s1, name, Some(Box::new(class)), *methods),
                    );
                },
                _ => {},
            }
        },
        None => {
            lemma_declare_class(s, name, None, methods);
        },
    }
}

/// Declaring a class that extends a sound class keeps the state sound.
pub proof fn lemma_declare_class(
    s: State,
    name: Token,
    superclass: Option<Box<ClassView>>,
    methods: &Vec<Rc<FunctionDecl>>,
)
    requires
        sound(s),
        match superclass {
            Some(parent) => class_sound(*parent, s.scopes),
            None => true,
        },
    ensures
        stays_sound(s, crate::semantics::declare_class(s, name, superclass, *methods)),
{
    let noted = capture(s.scopes, s.current);
    lemma_capture_sound(s.scopes, s.instances.len(), s.current);
    lemma_methods_sound(Map::empty(), methods@, s.current, 0, noted);
    match superclass {
        Some(parent) => {
            lemma_class_grows(*parent, s.scopes, noted);
        },
        None => {},
    }
    let class = ClassView {
        name: name.lexeme@,
        superclass,
        methods: declare_methods(Map::empty(), methods@, s.current, 0),
    };
    assert(class_sound(class, noted));
    lemma_declare(s, name.lexeme@, Value::Class(class), true);
}

/// As [`law_exec_sound`], of a list of statements.
pub proof fn lemma_exec_list(s: State, statements: &Vec<crate::stmt::Stmt>, from: nat, fuel: nat)
    requires
        sound(s),
    ensures
        stays_sound(s, crate::semantics::exec_list(s, *statements, from, fuel).0),
        flow_in_order(
            crate::semantics::exec_list(s, *statements, from, fuel).0,
            crate::semantics::exec_list(s, *statements, from, fuel).1,
        ),
    decreases fuel, 2nat, statements.len() - from,
{
    assert(carries(s.scopes, s.scopes));
    if from < statements.len() {
        law_exec_sound(s, statements[from as int], fuel);
        match crate::semantics::exec(s, statements[from as int], fuel) {
            (s1, Outcome::Done(Flow::Normal)) => {
                lemma_exec_list(s1, statements, from + 1, fuel);
                lemma_stays_on(
                    s,
                    s1,
                    crate::semantics::exec_list(s1, *statements, from + 1, fuel).0,
                );
            },
            _ => {},
        }
    }
}

/// As [`law_exec_sound`], of statements run in a scope that is there.
pub proof fn lemma_exec_block(s: State, statements: &Vec<crate::stmt::Stmt>, scope: usize, fuel: nat)
    requires
        sound(s),
        scope < s.scopes.len(),
    ensures
        stays_sound(s, crate::semantics::exec_block(s, *statements, scope, fuel).0),
        flow_in_order(
            crate::semantics::exec_block(s, *statements, scope, fuel).0,
            crate::semantics::exec_block(s, *statements, scope, fuel).1,
        ),
    decreases fuel, 3nat, 0nat,
{
    lemma_exec_list(State { current: scope, ..s }, statements, 0, fuel);
}

/// The second state is sound, and its reports are those of the first and
/// others, none of which is that of a function whose scope is gone.
pub open spec fn run_in_order(before: State, after: State) -> bool {
    &&& sound(after)
    &&& after.current == before.current
    &&& before.reports.len() <= after.reports.len()
    &&& forall|i: int| 0 <= i < before.reports.len() ==> after.reports[i] == before.reports[i]
    &&& forall|i: int|
        before.reports.len() <= i < after.reports.len() ==> !is_lost(#[trigger] after.reports[i])
}

/// A program run in a sound state leaves a sound state, and none of the
/// errors it reports is that of a function whose scope is gone.
pub proof fn law_run_sound(s: State, statements: &Vec<crate::stmt::Stmt>, from: nat, fuel: nat)
    requires
        sound(s),
    ensures
        match crate::semantics::run(s, *statements, from, fuel) {
            Some(after) => run_in_order(s, after),
            None => true,
        },
    decreases statements.len() - from, 1nat,
{
    if from < statements.len() {
        law_exec_sound(s, statements[from as int], fuel);
        match crate::semantics::exec(s, statements[from as int], fuel) {
            (s1, Outcome::Done(Flow::Normal)) => {
                law_run_sound(s1, statements, from + 1, fuel);
            },
            (s1, Outcome::Done(Flow::Return(keyword, _))) => {
                lemma_other_errors(keyword, 0, 0);
                lemma_after_failure(
                    s1,
                    crate::semantics::stray_return(keyword),
                    statements,
                    from,
                    fuel,
                );
            },
            (s1, Outcome::Failed(error)) => {
                lemma_after_failure(s1, error, statements, from, fuel);
            },
            _ => {},
        }
    }
}

/// As [`law_run_sound`], of the rest of a program after a failure.
pub proof fn lemma_after_failure(
    s: State,
    error: ErrorView,
    statements: &Vec<crate::stmt::Stmt>,
    from: nat,
    fuel: nat,
)
    requires
        sound(s),
        !is_lost(error),
        from < statements.len(),
    ensures
        match crate::semantics::after_failure(s, error, *statements, from, fuel) {
            Some(after) => run_in_order(s, after),
            None => true,
        },
    decreases statements.len() - from, 0nat,
{
    let reported = State { reports: s.reports.push(error), ..s };
    if !(s.current < s.scopes.len() && s.scopes[s.current as int].is_repl) {
        law_run_sound(reported, statements, from + 1, fuel);
    }
}

/// The state that an interpreter starts in on a new environment is sound.
pub proof fn law_initial_sound(is_repl: bool)
    ensures
        sound(
            crate::interpreter::Interpreter::initial(
                seq![ScopeView { enclosing: None, values: Map::empty(), is_repl, captured: false }],
            ),
        ),
{
    let scopes = seq![
        ScopeView { enclosing: None, values: Map::empty(), is_repl, captured: false },
    ];
    assert(scopes_sound(scopes, 0));
    lemma_bind_sound(scopes, 0, 0, "clock"@, Value::Clock);
}

/// What the resolver finds changes nothing of the soundness of a state.
pub proof fn law_resolved_sound(s: State, entries: Seq<(usize, usize)>)
    requires
        sound(s),
    ensures
        sound(crate::interpreter::resolved_state(s, entries)),
{
}

} // verus!
