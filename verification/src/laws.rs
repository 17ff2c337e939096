//! What holds of the library as a whole, stated over the functions of
//! [`crate::semantics`], [`crate::environment`] and [`crate::resolver`]
//! and proved here.

use vstd::prelude::*;
use crate::callable::{arity_of, FunctionType, LoxFunction};
use crate::environment::{
    ancestor,
    bind,
    bind_at,
    chained,
    holder,
    lookup,
    nest,
    rebind,
    release,
    ScopeView,
};
use crate::expr::Expr;
use crate::lox_class::{ClassType, ClassView};
use crate::object::Value;
use crate::resolver::{
    begin_scope,
    declare,
    define,
    is_nil,
    refused,
    refused_read,
    resolve_expr,
    resolve_stmt,
    Refused,
    Resolution,
};
use crate::semantics::{
    arity_mismatch,
    bind_method,
    bind_parameters,
    binary,
    call_function,
    call_value,
    eval,
    eval_binary,
    exec,
    exec_block,
    exec_list,
    exec_scoped,
    exec_var,
    Flow,
    get_property,
    read_variable,
    runtime,
    truncated_quotient,
    write_variable,
    Answer,
    Outcome,
    State,
};
use crate::stmt::Stmt;
use crate::token::{Literal, Token};
use crate::token_type::TokenType;

verus! {

/// The quotient rounded toward zero is the one whose remainder is smaller
/// than the divisor and, where it is not zero, has the sign of the
/// dividend.
pub proof fn law_truncated_quotient(a: int, b: int)
    requires
        b != 0,
    ensures
        ({
            let q = truncated_quotient(a, b);
            let r = a - q * b;
            &&& (a >= 0 ==> 0 <= r)
            &&& (a <= 0 ==> r <= 0)
            &&& (b > 0 ==> -b < r < b)
            &&& (b < 0 ==> b < r < -b)
        }),
{
    let q = truncated_quotient(a, b);
    if a > 0 && b > 0 {
        assert(a == (a / b) * b + a % b && 0 <= a % b < b) by (nonlinear_arith)
            requires
                a > 0,
                b > 0,
        ;
    } else if a < 0 && b < 0 {
        let x = a * -1;
        let d = b * -1;
        assert(x == (x / d) * d + x % d && 0 <= x % d < d) by (nonlinear_arith)
            requires
                x > 0,
                d > 0,
        ;
        assert((x / d) * b == -((x / d) * d)) by (nonlinear_arith)
            requires
                d == b * -1,
        ;
    } else if a < 0 {
        let x = a * -1;
        assert(x == (x / b) * b + x % b && 0 <= x % b < b) by (nonlinear_arith)
            requires
                x > 0,
                b > 0,
        ;
        assert(((x / b) * -1) * b == -((x / b) * b)) by (nonlinear_arith);
    } else if a > 0 {
        let d = b * -1;
        assert(a == (a / d) * d + a % d && 0 <= a % d < d) by (nonlinear_arith)
            requires
                a > 0,
                d > 0,
        ;
        assert(((a / d) * -1) * b == (a / d) * d) by (nonlinear_arith)
            requires
                d == b * -1,
        ;
    } else {
        assert(0 * b == 0) by (nonlinear_arith);
    }
}

/// The division of an integer by an integer other than zero yields the
/// quotient rounded toward zero, whenever that is an integer of the
/// machine.
pub proof fn law_integer_division(s: State, operator: Token, a: isize, b: isize, fuel: nat)
    requires
        operator.token_type == TokenType::Slash,
        b != 0,
        !(a == isize::MIN && b == -1),
        fuel >= 2,
    ensures
        isize::MIN <= truncated_quotient(a as int, b as int) <= isize::MAX,
        eval(
            s,
            Expr::Binary {
                left: Box::new(Expr::Literal { value: Literal::Isize(a) }),
                operator,
                right: Box::new(Expr::Literal { value: Literal::Isize(b) }),
            },
            fuel,
        ) == (s, Outcome::Done(Value::Int(truncated_quotient(a as int, b as int) as isize))),
{
    law_truncated_quotient(a as int, b as int);
    let q = truncated_quotient(a as int, b as int);
    assert(isize::MIN <= q <= isize::MAX) by (nonlinear_arith)
        requires
            b != 0,
            !(a == isize::MIN && b == -1),
            isize::MIN <= a <= isize::MAX,
            isize::MIN <= b <= isize::MAX,
            isize::MIN == -isize::MAX - 1,
            ({
                let r = a - q * b;
                &&& (a >= 0 ==> 0 <= r)
                &&& (a <= 0 ==> r <= 0)
                &&& (b > 0 ==> -b < r < b)
                &&& (b < 0 ==> b < r < -b)
            }),
    ;
    let left = Expr::Literal { value: Literal::Isize(a) };
    let right = Expr::Literal { value: Literal::Isize(b) };
    let f = (fuel - 1) as nat;
    assert(eval(s, left, f) == (s, Outcome::Done(Value::Int(a))));
    assert(eval(s, right, f) == (s, Outcome::Done(Value::Int(b))));
    assert(binary(operator, Value::Int(a), Value::Int(b)) == Outcome::Done(
        Value::Int(q as isize),
    ));
    assert(eval_binary(s, left, operator, right, f) == (
        s,
        binary(operator, Value::Int(a), Value::Int(b)),
    ));
}

/// An arithmetic operator on two numbers of which one at least is a
/// floating-point number yields a floating-point number, which the unit
/// computes, and leaves the state as it is: an integer beside a
/// floating-point number is not divided as an integer.
pub proof fn law_mixed_arithmetic(s: State, operator: Token, left: Literal, right: Literal, fuel: nat)
    requires
        operator.token_type == TokenType::Slash || operator.token_type == TokenType::Star
            || operator.token_type == TokenType::Plus || operator.token_type == TokenType::Minus,
        left is Float || left is Isize,
        right is Float || right is Isize,
        left is Float || right is Float,
        fuel >= 2,
    ensures
        eval(
            s,
            Expr::Binary {
                left: Box::new(Expr::Literal { value: left }),
                operator,
                right: Box::new(Expr::Literal { value: right }),
            },
            fuel,
        ) == (s, Outcome::<Value>::Outside(Answer::Float)),
{
    let f = (fuel - 1) as nat;
    let l = Expr::Literal { value: left };
    let r = Expr::Literal { value: right };
    assert(eval(s, l, f) == (s, Outcome::Done(left@)));
    assert(eval(s, r, f) == (s, Outcome::Done(right@)));
    assert(binary(operator, left@, right@) == Outcome::<Value>::Outside(Answer::Float));
    assert(eval_binary(s, l, operator, r, f) == (s, binary(operator, left@, right@)));
}

/// A call of the clock without arguments leaves the state as it is and
/// yields what some reading of the clock yields.
pub proof fn law_clock_call(s: State, paren: Token, fuel: nat)
    ensures
        call_value(s, Value::Clock, paren, Seq::empty(), fuel) == (
            s,
            Outcome::<Value>::Outside(Answer::Clock(paren)),
        ),
{
}

/// Binding a name in one scope changes nothing of what an older scope
/// sees: not which scope holds a name for it, nor the value there.
pub proof fn law_older_scope_unchanged(
    env: Seq<ScopeView>,
    older: usize,
    scope: usize,
    bound: Seq<char>,
    value: Value,
    name: Seq<char>,
)
    requires
        chained(env),
        older < scope,
    ensures
        holder(bind(env, scope, bound, value), older, name) == holder(env, older, name),
        lookup(bind(env, scope, bound, value), older, name) == lookup(env, older, name),
    decreases older,
{
    let after = bind(env, scope, bound, value);
    if older < env.len() {
        assert(after[older as int] == env[older as int]);
        if !env[older as int].values.contains_key(name) {
            match env[older as int].enclosing {
                Some(outer) => {
                    law_older_scope_unchanged(env, outer, scope, bound, value, name);
                },
                None => {},
            }
        }
        match holder(env, older, name) {
            Some(at) => {
                lemma_holder_within(env, older, name);
                assert(after[at as int] == env[at as int]);
            },
            None => {},
        }
    }
}

/// The scope that holds a name for `scope` is `scope` or an older one, and
/// it binds the name.
pub proof fn lemma_holder_within(env: Seq<ScopeView>, scope: usize, name: Seq<char>)
    ensures
        match holder(env, scope, name) {
            Some(at) => at <= scope && at < env.len() && env[at as int].values.contains_key(name),
            None => true,
        },
    decreases scope,
{
    if scope < env.len() && !env[scope as int].values.contains_key(name) {
        match env[scope as int].enclosing {
            Some(outer) => {
                if outer < scope {
                    lemma_holder_within(env, outer, name);
                }
            },
            None => {},
        }
    }
}

/// A variable declared in an inner block shadows an outer binding of the
/// same name within that block only: in the new scope the name means the
/// new value, and in the enclosing scope, as in every scope made before,
/// it means what it meant.
pub proof fn law_shadowing(
    env: Seq<ScopeView>,
    outer: usize,
    seen_from: usize,
    name: Seq<char>,
    value: Value,
)
    requires
        chained(env),
        outer < env.len(),
        seen_from < env.len(),
        env.len() <= usize::MAX,
    ensures
        ({
            let inner = env.len() as usize;
            let after = bind(nest(env, outer), inner, name, value);
            &&& lookup(after, inner, name) == Some(value)
            &&& lookup(after, seen_from, name) == lookup(env, seen_from, name)
        }),
{
    let inner = env.len() as usize;
    let nested = nest(env, outer);
    let after = bind(nested, inner, name, value);
    assert(after[inner as int].values.contains_key(name));
    assert(chained(nested)) by {
        assert forall|i: int| 0 <= i < nested.len() implies match (#[trigger] nested[i]).enclosing {
            Some(enclosing) => enclosing < i,
            None => true,
        } by {
            if i < env.len() {
                assert(nested[i] == env[i]);
            }
        }
    }
    law_older_scope_unchanged(nested, seen_from, inner, name, value, name);
    lemma_nest_unseen(env, outer, seen_from, name);
}

/// A scope made later is not seen from a scope made before.
pub proof fn lemma_nest_unseen(env: Seq<ScopeView>, outer: usize, scope: usize, name: Seq<char>)
    requires
        chained(env),
        scope < env.len(),
    ensures
        holder(nest(env, outer), scope, name) == holder(env, scope, name),
        lookup(nest(env, outer), scope, name) == lookup(env, scope, name),
    decreases scope,
{
    let nested = nest(env, outer);
    assert(nested[scope as int] == env[scope as int]);
    if !env[scope as int].values.contains_key(name) {
        match env[scope as int].enclosing {
            Some(enclosing) => {
                lemma_nest_unseen(env, outer, enclosing, name);
            },
            None => {},
        }
    }
    match holder(env, scope, name) {
        Some(at) => {
            lemma_holder_within(env, scope, name);
            assert(nested[at as int] == env[at as int]);
        },
        None => {},
    }
}

/// A block that declares a variable leaves the state as it was: after
/// `{ var name = value; }` every scope is as before the block, so that
/// every name, `name` too, means what it meant. Within the block `name`
/// meant the value, as [`law_shadowing`] says.
pub proof fn law_block_declaration(
    s: State,
    statements: Vec<Stmt>,
    name: Token,
    value: Literal,
    fuel: nat,
)
    requires
        s.current < s.scopes.len(),
        s.scopes.len() < usize::MAX,
        statements.len() == 1,
        statements[0] == (Stmt::Var { name, initializer: Expr::Literal { value } }),
        fuel >= 4,
    ensures
        exec(s, Stmt::Block { statements }, fuel) == (s, Outcome::Done(Flow::Normal)),
{
    let inner = s.scopes.len() as usize;
    let entered = State { scopes: nest(s.scopes, s.current), current: inner, ..s };
    let f1 = (fuel - 1) as nat;
    let f2 = (fuel - 2) as nat;
    let f3 = (fuel - 3) as nat;
    let declared = State { scopes: bind(entered.scopes, inner, name.lexeme@, value@), ..entered };
    assert(eval(entered, Expr::Literal { value }, f3) == (entered, Outcome::Done(value@)));
    assert(exec_var(entered, name, Expr::Literal { value }, f2) == (
        declared,
        Outcome::Done(Flow::Normal),
    ));
    assert(exec(entered, statements[0], f1) == (declared, Outcome::Done(Flow::Normal)));
    assert(exec_list(declared, statements, 1, f1) == (declared, Outcome::Done(Flow::Normal)));
    assert(exec_list(entered, statements, 0, f1) == (declared, Outcome::Done(Flow::Normal)));
    assert(exec_block(State { scopes: nest(s.scopes, s.current), ..s }, statements, inner, f1) == (
        State { current: s.current, ..declared },
        Outcome::Done(Flow::Normal),
    ));
    assert(release(declared.scopes, inner) =~= s.scopes);
    assert(exec_scoped(s, statements, f1) == (s, Outcome::Done(Flow::Normal)));
}

/// Every block runs its statements in exactly one new scope, which is
/// empty, lies inside the scope that was current and is of the same kind
/// of session; however the statements end, the scope that was current
/// before the block is current after it, and the new scope is let go.
pub proof fn law_block_scope(s: State, statements: Vec<Stmt>, fuel: nat)
    requires
        s.current < s.scopes.len(),
    ensures
        nest(s.scopes, s.current) == s.scopes.push(
            ScopeView {
                enclosing: Some(s.current),
                values: Map::empty(),
                is_repl: s.scopes[s.current as int].is_repl,
                captured: false,
            },
        ),
        exec_scoped(s, statements, fuel).0.current == s.current,
        exec_scoped(s, statements, fuel).1 == exec_block(
            State { scopes: nest(s.scopes, s.current), ..s },
            statements,
            s.scopes.len() as usize,
            fuel,
        ).1,
        exec_scoped(s, statements, fuel).0.scopes == release(
            exec_block(
                State { scopes: nest(s.scopes, s.current), ..s },
                statements,
                s.scopes.len() as usize,
                fuel,
            ).0.scopes,
            s.scopes.len() as usize,
        ),
{
}

/// However the statements of a block end, the scope that was current
/// before the block is current after it.
pub proof fn law_block_restores_scope(s: State, statements: Vec<Stmt>, scope: usize, fuel: nat)
    ensures
        exec_block(s, statements, scope, fuel).0.current == s.current,
{
}

/// Giving a bound name a new value changes no scope's choice of the scope
/// that holds a name for it.
pub proof fn lemma_rebind_keeps_holders(
    env: Seq<ScopeView>,
    home: usize,
    name: Seq<char>,
    value: Value,
    scope: usize,
    other: Seq<char>,
)
    requires
        home < env.len(),
        env[home as int].values.contains_key(name),
    ensures
        holder(bind(env, home, name, value), scope, other) == holder(env, scope, other),
    decreases scope,
{
    let after = bind(env, home, name, value);
    if scope < env.len() {
        assert(after[scope as int].enclosing == env[scope as int].enclosing);
        assert(after[scope as int].values.dom() =~= env[scope as int].values.dom());
        if !env[scope as int].values.contains_key(other) {
            match env[scope as int].enclosing {
                Some(outer) => {
                    if outer < scope {
                        lemma_rebind_keeps_holders(env, home, name, value, outer, other);
                    }
                },
                None => {},
            }
        }
    }
}

/// A closure sees its defining scope itself, not a copy of it: where two
/// scopes find a name in the same scope, an assignment made from one is
/// what the other reads.
pub proof fn law_shared_binding(
    env: Seq<ScopeView>,
    writer: usize,
    reader: usize,
    name: Seq<char>,
    value: Value,
)
    requires
        holder(env, writer, name) is Some,
        holder(env, reader, name) == holder(env, writer, name),
    ensures
        lookup(rebind(env, writer, name, value), reader, name) == Some(value),
{
    lemma_holder_within(env, writer, name);
    let home = holder(env, writer, name)->Some_0;
    lemma_rebind_keeps_holders(env, home, name, value, reader, name);
}

/// Scopes that are the same up to `scope` give `scope` the same holder of
/// a name and the same value.
pub proof fn lemma_same_scopes_same_holder(
    a: Seq<ScopeView>,
    b: Seq<ScopeView>,
    scope: usize,
    name: Seq<char>,
)
    requires
        chained(a),
        scope < a.len(),
        scope < b.len(),
        forall|i: int| 0 <= i <= scope ==> a[i] == b[i],
    ensures
        holder(a, scope, name) == holder(b, scope, name),
        lookup(a, scope, name) == lookup(b, scope, name),
    decreases scope,
{
    assert(a[scope as int] == b[scope as int]);
    if !a[scope as int].values.contains_key(name) {
        match a[scope as int].enclosing {
            Some(outer) => {
                lemma_same_scopes_same_holder(a, b, outer, name);
            },
            None => {},
        }
    }
    match holder(a, scope, name) {
        Some(at) => {
            lemma_holder_within(a, scope, name);
            assert(a[at as int] == b[at as int]);
        },
        None => {},
    }
}

/// Binding the parameters of a call changes the scope of the call alone,
/// and there it binds parameters alone.
pub proof fn lemma_bind_parameters(
    scopes: Seq<ScopeView>,
    scope: usize,
    params: Seq<Token>,
    arguments: Seq<Value>,
    from: nat,
    name: Seq<char>,
)
    requires
        scope < scopes.len(),
        forall|i: int| from <= i < params.len() ==> (#[trigger] params[i]).lexeme@ != name,
    ensures
        ({
            let after = bind_parameters(scopes, scope, params, arguments, from);
            &&& after.len() == scopes.len()
            &&& forall|i: int| 0 <= i < scopes.len() && i != scope ==> after[i] == scopes[i]
            &&& after[scope as int].enclosing == scopes[scope as int].enclosing
            &&& after[scope as int].values.contains_key(name) == scopes[scope as int].values.contains_key(
                name,
            )
        }),
    decreases params.len() - from,
{
    if from < params.len() && from < arguments.len() {
        let next = bind(scopes, scope, params[from as int].lexeme@, arguments[from as int]);
        lemma_bind_parameters(next, scope, params, arguments, from + 1, name);
    }
}

/// A name that is no parameter of a function means at the start of the
/// function's body what it means in the scope that the function was
/// declared in: the body sees the very bindings of that scope, and an
/// assignment to them from anywhere is what it reads.
pub proof fn law_body_sees_closure(
    s: State,
    function: LoxFunction,
    arguments: Seq<Value>,
    name: Seq<char>,
)
    requires
        chained(s.scopes),
        function.closure < s.scopes.len(),
        s.scopes.len() < usize::MAX,
        forall|i: int|
            0 <= i < function.declaration.params@.len() ==> (
            #[trigger] function.declaration.params@[i]).lexeme@ != name,
    ensures
        ({
            let scope = s.scopes.len() as usize;
            let entered = bind_parameters(
                nest(s.scopes, function.closure),
                scope,
                function.declaration.params@,
                arguments,
                0,
            );
            &&& holder(entered, scope, name) == holder(s.scopes, function.closure, name)
            &&& lookup(entered, scope, name) == lookup(s.scopes, function.closure, name)
        }),
{
    let scope = s.scopes.len() as usize;
    let nested = nest(s.scopes, function.closure);
    let entered = bind_parameters(nested, scope, function.declaration.params@, arguments, 0);
    lemma_bind_parameters(nested, scope, function.declaration.params@, arguments, 0, name);
    assert(!nested[scope as int].values.contains_key(name));
    assert(entered[scope as int].enclosing == Some(function.closure));
    assert forall|i: int| 0 <= i <= function.closure implies s.scopes[i] == entered[i] by {
        assert(nested[i] == s.scopes[i]);
    }
    lemma_same_scopes_same_holder(s.scopes, entered, function.closure, name);
}

/// Binding a name keeps the scopes chained.
pub proof fn lemma_bind_chained(env: Seq<ScopeView>, scope: usize, name: Seq<char>, value: Value)
    requires
        chained(env),
    ensures
        chained(bind(env, scope, name, value)),
{
    let after = bind(env, scope, name, value);
    assert forall|i: int| 0 <= i < after.len() implies match (#[trigger] after[i]).enclosing {
        Some(outer) => outer < i,
        None => true,
    } by {
        assert(after[i].enclosing == env[i].enclosing);
    }
}

/// An assignment that the resolver has given a distance writes the scope
/// at that distance and no other: every scope older than that one sees
/// what it saw, and a block's own variable is written without a trace in
/// the scopes around the block.
pub proof fn law_resolved_assignment_stays_inside(
    s: State,
    name: Token,
    id: usize,
    value: Value,
    older: usize,
    other: Seq<char>,
)
    requires
        chained(s.scopes),
        s.locals.contains_key(id),
        ancestor(s.scopes, s.current, s.locals[id] as nat) is Some,
        older < ancestor(s.scopes, s.current, s.locals[id] as nat)->Some_0,
    ensures
        write_variable(s, name, id, value).1 == Outcome::Done(value),
        lookup(write_variable(s, name, id, value).0.scopes, older, other) == lookup(
            s.scopes,
            older,
            other,
        ),
{
    let at = ancestor(s.scopes, s.current, s.locals[id] as nat)->Some_0;
    law_older_scope_unchanged(s.scopes, older, at, name.lexeme@, value, other);
}

/// A read that the resolver has given the distance zero, in a scope that
/// binds the name, yields the binding of that scope, whatever the scopes
/// around it bind the name to.
pub proof fn law_resolved_read_is_inner(s: State, name: Token, id: usize)
    requires
        s.current < s.scopes.len(),
        s.locals.contains_key(id),
        s.locals[id] == 0,
        s.scopes[s.current as int].values.contains_key(name.lexeme@),
    ensures
        read_variable(s, name, id) == Outcome::Done(
            s.scopes[s.current as int].values[name.lexeme@],
        ),
{
}

/// A declaration in the current scope is not seen from any older scope:
/// every name, the declared one too, means there what it meant.
pub proof fn law_declaration_stays_inside(
    s: State,
    name: Token,
    value: Value,
    older: usize,
    other: Seq<char>,
)
    requires
        chained(s.scopes),
        older < s.current,
    ensures
        lookup(bind(s.scopes, s.current, name.lexeme@, value), older, other) == lookup(
            s.scopes,
            older,
            other,
        ),
{
    law_older_scope_unchanged(s.scopes, older, s.current, name.lexeme@, value, other);
}

/// An assignment that the resolver has given a distance, made from any
/// scope, is read by every scope that finds the name in the scope written.
pub proof fn law_shared_binding_at(
    env: Seq<ScopeView>,
    writer: usize,
    distance: nat,
    reader: usize,
    name: Seq<char>,
    value: Value,
)
    requires
        ancestor(env, writer, distance) is Some,
        holder(env, reader, name) == ancestor(env, writer, distance),
    ensures
        lookup(bind_at(env, writer, distance, name, value), reader, name) == Some(value),
        holder(bind_at(env, writer, distance, name, value), reader, name) == holder(
            env,
            reader,
            name,
        ),
{
    lemma_holder_within(env, reader, name);
    let home = holder(env, reader, name)->Some_0;
    lemma_rebind_keeps_holders(env, home, name, value, reader, name);
}

/// A closure sees its defining scope itself, not a copy: after the body of
/// one function has assigned a variable of the scope that it was declared
/// in, at the distance that the resolver gave, every later call of a
/// function declared in that scope, or in one inside it that does not
/// bind the name, starts with the new value, whatever scope it is called
/// from.
pub proof fn law_closure_observes_assignment(
    s: State,
    writer: usize,
    distance: nat,
    name: Seq<char>,
    value: Value,
    function: LoxFunction,
    arguments: Seq<Value>,
)
    requires
        chained(s.scopes),
        s.scopes.len() < usize::MAX,
        ancestor(s.scopes, writer, distance) is Some,
        function.closure < s.scopes.len(),
        holder(s.scopes, function.closure, name) == ancestor(s.scopes, writer, distance),
        forall|i: int|
            0 <= i < function.declaration.params@.len() ==> (
            #[trigger] function.declaration.params@[i]).lexeme@ != name,
    ensures
        ({
            let written = bind_at(s.scopes, writer, distance, name, value);
            let scope = written.len() as usize;
            let entered = bind_parameters(
                nest(written, function.closure),
                scope,
                function.declaration.params@,
                arguments,
                0,
            );
            lookup(entered, scope, name) == Some(value)
        }),
{
    let written = bind_at(s.scopes, writer, distance, name, value);
    let home = ancestor(s.scopes, writer, distance)->Some_0;
    lemma_bind_chained(s.scopes, home, name, value);
    law_shared_binding_at(s.scopes, writer, distance, function.closure, name, value);
    law_body_sees_closure(State { scopes: written, ..s }, function, arguments, name);
}

/// The body of a function runs in a scope made inside the scope that the
/// function was declared in, whatever scope the call is made from.
pub proof fn law_call_enters_closure(
    s: State,
    function: LoxFunction,
    paren: Token,
    arguments: Seq<Value>,
    fuel: nat,
)
    requires
        function.closure < s.scopes.len(),
    ensures
        nest(s.scopes, function.closure)[s.scopes.len() as int].enclosing == Some(
            function.closure,
        ),
        call_function(s, function, paren, arguments, fuel).0.current == s.current,
{
}

/// In one scope a name cannot be declared twice, and the refusal leaves
/// the resolver as it was; in a scope nested in it the name can be
/// declared again.
pub proof fn law_redeclaration(r: Resolution, first: Token, second: Token)
    requires
        r.scopes.len() > 0,
        first.lexeme@ == second.lexeme@,
        declare(r, first) is Ok,
    ensures
        ({
            let declared = define(declare(r, first)->Ok_0, first);
            &&& declare(declared, second) == Err::<Resolution, Refused>(
                refused(
                    declared,
                    second,
                    "Variable with this name already declared in this scope."@,
                ),
            )
            &&& declare(begin_scope(declared), second) is Ok
        }),
{
    let declared = define(declare(r, first)->Ok_0, first);
    assert(declared.scopes.last().contains_key(second.lexeme@));
    assert(begin_scope(declared).scopes.last() =~= Map::<Seq<char>, bool>::empty());
}

/// A read of a variable that the innermost scope holds as not yet ready,
/// as in its own initialiser, is refused: no distance is found for it, and
/// the refusal is reported.
pub proof fn law_read_in_own_initializer(r: Resolution, name: Token, id: usize)
    requires
        r.scopes.len() > 0,
        r.scopes.last().contains_key(name.lexeme@),
        !r.scopes.last()[name.lexeme@],
    ensures
        resolve_expr(r, Expr::Variable { name, id }) == Err::<Resolution, Refused>(
            refused_read(r, name),
        ),
        refused_read(r, name).state.resolved == r.resolved,
        refused_read(r, name).state.scopes == r.scopes,
{
}

/// Outside every function a `return` is refused, and the resolver is left
/// as it was.
pub proof fn law_return_outside_function(r: Resolution, keyword: Token, value: Expr)
    requires
        r.current_function == FunctionType::Outside,
    ensures
        resolve_stmt(r, Stmt::Return { keyword, value }) == Err::<Resolution, Refused>(
            refused(r, keyword, "Cannot return from top-level code."@),
        ),
{
}

/// Outside every class `this` is refused: nothing is found for it, and the
/// resolver is left as it was.
pub proof fn law_this_outside_class(r: Resolution, keyword: Token, id: usize)
    requires
        r.current_class == ClassType::Outside,
    ensures
        resolve_expr(r, Expr::This { keyword, id }) == Err::<Resolution, Refused>(
            refused(r, keyword, "Cannot use 'this' outside of a class."@),
        ),
{
}

/// In an initialiser a `return` with a value is refused, and the resolver
/// is left as it was.
pub proof fn law_return_value_in_initializer(r: Resolution, keyword: Token, value: Expr)
    requires
        r.current_function == FunctionType::Initializer,
        !is_nil(value),
    ensures
        resolve_stmt(r, Stmt::Return { keyword, value }) == Err::<Resolution, Refused>(
            refused(r, keyword, "Cannot return a value from an initializer."@),
        ),
{
}

/// A method that a class has itself comes before every method of that
/// name in the classes it extends.
pub proof fn law_own_method_first(class: ClassView, name: Seq<char>)
    requires
        class.methods.contains_key(name),
    ensures
        class.find_method(name) == Some(class.methods[name]),
{
}

/// A method that a class lacks is the one that the class it extends finds.
pub proof fn law_inherited_method(class: ClassView, name: Seq<char>)
    requires
        !class.methods.contains_key(name),
        class.superclass is Some,
    ensures
        class.find_method(name) == class.superclass->Some_0.find_method(name),
{
}

/// Reading from an instance a property that is no field of it yields the
/// method of that name of the instance's own class, bound to the
/// instance, where the class has one itself.
pub proof fn law_method_of_own_class(s: State, handle: usize, name: Token)
    requires
        handle < s.instances.len(),
        !s.instances[handle as int].fields.contains_key(name.lexeme@),
        s.instances[handle as int].class.methods.contains_key(name.lexeme@),
        s.instances[handle as int].class.methods[name.lexeme@].closure < s.scopes.len(),
    ensures
        ({
            let own = s.instances[handle as int].class.methods[name.lexeme@];
            get_property(s, Value::Instance(handle), name) == (
                bind_method(s, own, handle)->Some_0.0,
                Outcome::Done(Value::Func(bind_method(s, own, handle)->Some_0.1)),
            )
        }),
{
    let own = s.instances[handle as int].class.methods[name.lexeme@];
    assert(s.instances[handle as int].class.find_method(name.lexeme@) == Some(own));
}

/// A value that is no function, no class and not the clock cannot be
/// called.
pub proof fn law_not_callable(
    s: State,
    target: Value,
    paren: Token,
    arguments: Seq<Value>,
    fuel: nat,
)
    requires
        !(target is Func),
        !(target is Class),
        !(target is Clock),
    ensures
        call_value(s, target, paren, arguments, fuel) == (
            s,
            Outcome::<Value>::Failed(runtime(paren, "Can only call functions and classes."@)),
        ),
{
}

/// A call that brings another number of arguments than the callee takes
/// fails with an error that names both numbers, and nothing is run.
pub proof fn law_arity_mismatch(
    s: State,
    target: Value,
    paren: Token,
    arguments: Seq<Value>,
    fuel: nat,
)
    requires
        target is Func || target is Class || target is Clock,
        arguments.len() != arity_of(target),
    ensures
        call_value(s, target, paren, arguments, fuel) == (
            s,
            Outcome::<Value>::Failed(arity_mismatch(paren, arity_of(target), arguments.len())),
        ),
{
}

} // verus!
