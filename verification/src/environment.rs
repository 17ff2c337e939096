//! Chained scopes: each maps names to values and may have an enclosing
//! scope. All scopes of one interpreter live in one table and are named by
//! their place in it, so that closures can share them. A scope that a
//! function has closed over stays in the table, under its place, for as
//! long as the table lives; another one leaves the table when the block or
//! the call that made it is over, if no scope made after it is left.

use vstd::prelude::*;
use vstd::string::*;
use crate::error::{Error, ErrorView};
use crate::name_map::NameMap;
use crate::object::{Object, Value};
use crate::token::Token;

verus! {

/// One scope as a mathematical value.
pub struct ScopeView {
    pub enclosing: Option<usize>,
    pub values: Map<Seq<char>, Value>,
    pub is_repl: bool,
    /// Whether a function has closed over the scope.
    pub captured: bool,
}

/// Every scope was made inside an earlier one or inside none, so the first
/// has none around it: no chain of enclosing scopes runs in a circle.
pub open spec fn chained(env: Seq<ScopeView>) -> bool {
    forall|i: int|
        0 <= i < env.len() ==> match (#[trigger] env[i]).enclosing {
            Some(outer) => outer < i,
            None => true,
        }
}

/// The scope that `scope` reaches by `distance` steps outward.
pub open spec fn ancestor(env: Seq<ScopeView>, scope: usize, distance: nat) -> Option<usize>
    decreases distance,
{
    if scope >= env.len() {
        None
    } else if distance == 0 {
        Some(scope)
    } else {
        match env[scope as int].enclosing {
            Some(outer) => ancestor(env, outer, (distance - 1) as nat),
            None => None,
        }
    }
}

/// The nearest scope, from `scope` outward, that binds `name`.
pub open spec fn holder(env: Seq<ScopeView>, scope: usize, name: Seq<char>) -> Option<usize>
    decreases scope,
{
    if scope >= env.len() {
        None
    } else if env[scope as int].values.contains_key(name) {
        Some(scope)
    } else {
        match env[scope as int].enclosing {
            Some(outer) => if outer < scope {
                holder(env, outer, name)
            } else {
                None
            },
            None => None,
        }
    }
}

/// What `name` means in `scope`: its value in the nearest scope that binds
/// it.
pub open spec fn lookup(env: Seq<ScopeView>, scope: usize, name: Seq<char>) -> Option<Value> {
    match holder(env, scope, name) {
        Some(at) => Some(env[at as int].values[name]),
        None => None,
    }
}

/// What `name` is bound to in the scope `distance` steps out of `scope`.
pub open spec fn lookup_at(env: Seq<ScopeView>, scope: usize, distance: nat, name: Seq<char>) -> Option<
    Value,
> {
    match ancestor(env, scope, distance) {
        Some(at) => if env[at as int].values.contains_key(name) {
            Some(env[at as int].values[name])
        } else {
            None
        },
        None => None,
    }
}

/// The scopes after `name` is bound to `value` in `scope` and nowhere else.
pub open spec fn bind(env: Seq<ScopeView>, scope: usize, name: Seq<char>, value: Value) -> Seq<
    ScopeView,
> {
    if scope < env.len() {
        env.update(
            scope as int,
            ScopeView { values: env[scope as int].values.insert(name, value), ..env[scope as int] },
        )
    } else {
        env
    }
}

/// The scopes after a new, empty one is made inside `enclosing`.
pub open spec fn nest(env: Seq<ScopeView>, enclosing: usize) -> Seq<ScopeView> {
    if enclosing < env.len() {
        env.push(
            ScopeView {
                enclosing: Some(enclosing),
                values: Map::empty(),
                is_repl: env[enclosing as int].is_repl,
                captured: false,
            },
        )
    } else {
        env
    }
}

/// The scopes after a function has closed over `scope`.
pub open spec fn capture(env: Seq<ScopeView>, scope: usize) -> Seq<ScopeView> {
    if scope < env.len() {
        env.update(scope as int, ScopeView { captured: true, ..env[scope as int] })
    } else {
        env
    }
}

/// The scopes after the block or the call that made `scope` is over: the
/// scope is gone where it was the last one made and no function has closed
/// over it. The first scope never goes.
pub open spec fn release(env: Seq<ScopeView>, scope: usize) -> Seq<ScopeView> {
    if 0 < scope && scope + 1 == env.len() && !env[scope as int].captured {
        env.drop_last()
    } else {
        env
    }
}

/// The scopes after `name`, bound somewhere from `scope` outward, is given
/// a new value there.
pub open spec fn rebind(env: Seq<ScopeView>, scope: usize, name: Seq<char>, value: Value) -> Seq<
    ScopeView,
> {
    match holder(env, scope, name) {
        Some(at) => bind(env, at, name, value),
        None => env,
    }
}

/// The scopes after `name` is bound in the scope `distance` steps out of
/// `scope`.
pub open spec fn bind_at(
    env: Seq<ScopeView>,
    scope: usize,
    distance: nat,
    name: Seq<char>,
    value: Value,
) -> Seq<ScopeView> {
    match ancestor(env, scope, distance) {
        Some(at) => bind(env, at, name, value),
        None => env,
    }
}

/// The error of a name that no scope binds.
pub open spec fn undefined_variable(name: Token) -> ErrorView {
    ErrorView::RuntimeError(name, "Undefined variable '"@ + name.lexeme@ + "'."@)
}

/// One scope.
struct Scope {
    enclosing: Option<usize>,
    values: NameMap<Object>,
    is_repl: bool,
    captured: bool,
}

impl View for Scope {
    type V = ScopeView;

    closed spec fn view(&self) -> ScopeView {
        ScopeView {
            enclosing: self.enclosing,
            values: self.values@,
            is_repl: self.is_repl,
            captured: self.captured,
        }
    }
}

/// A table of one empty scope, to stand in while the real one is worked on.
fn lone_scope() -> (scopes: Vec<Scope>)
    ensures
        scopes@.len() == 1,
        chained(views(scopes@)),
{
    let mut scopes: Vec<Scope> = Vec::new();
    scopes.push(
        Scope { enclosing: None, values: NameMap::new(), is_repl: false, captured: false },
    );
    scopes
}

/// The scopes of one interpreter. The first is the global scope.
pub struct Environment {
    scopes: Vec<Scope>,
}

spec fn views(scopes: Seq<Scope>) -> Seq<ScopeView> {
    Seq::new(scopes.len(), |i: int| scopes[i]@)
}

impl View for Environment {
    type V = Seq<ScopeView>;

    closed spec fn view(&self) -> Seq<ScopeView> {
        views(self.scopes@)
    }
}

impl Environment {
    #[verifier::type_invariant]
    spec fn well_formed(&self) -> bool {
        self.scopes@.len() > 0 && chained(views(self.scopes@))
    }

    /// An environment of one scope, the global one.
    pub fn new(is_repl: bool) -> (environment: Environment)
        ensures
            environment@ == seq![
                ScopeView { enclosing: None, values: Map::empty(), is_repl, captured: false },
            ],
    {
        let mut scopes: Vec<Scope> = Vec::new();
        scopes.push(Scope { enclosing: None, values: NameMap::new(), is_repl, captured: false });
        assert(views(scopes@) =~= seq![
            ScopeView { enclosing: None, values: Map::empty(), is_repl, captured: false },
        ]);
        Environment { scopes }
    }

    /// How many scopes there are.
    pub fn len(&self) -> (count: usize)
        ensures
            count == self@.len(),
            count > 0,
            chained(self@),
    {
        proof {
            use_type_invariant(self);
        }
        self.scopes.len()
    }

    /// Whether `scope` prints the value of a bare expression.
    pub fn is_repl(&self, scope: usize) -> (flag: bool)
        ensures
            flag == (scope < self@.len() && self@[scope as int].is_repl),
    {
        scope < self.scopes.len() && self.scopes[scope].is_repl
    }

    /// Makes a new, empty scope inside `enclosing` and returns its place;
    /// `None`, and nothing made, where `enclosing` is no scope.
    pub fn nest(&mut self, enclosing: usize) -> (scope: Option<usize>)
        ensures
            final(self)@ == nest(old(self)@, enclosing),
            final(self)@.len() <= usize::MAX,
            scope == (if enclosing < old(self)@.len() {
                Some(old(self)@.len() as usize)
            } else {
                None
            }),
    {
        proof {
            use_type_invariant(&*self);
        }
        if enclosing >= self.scopes.len() {
            return None;
        }
        let is_repl = self.scopes[enclosing].is_repl;
        let at = self.scopes.len();
        let ghost before = self.scopes@;
        let mut scopes = lone_scope();
        core::mem::swap(&mut self.scopes, &mut scopes);
        scopes.push(
            Scope { enclosing: Some(enclosing), values: NameMap::new(), is_repl, captured: false },
        );
        proof {
            assert(views(scopes@) =~= nest(views(before), enclosing));
            assert forall|i: int| 0 <= i < views(scopes@).len() implies match (
            #[trigger] views(scopes@)[i]).enclosing {
                Some(outer) => outer < i,
                None => true,
            } by {
                if i < before.len() {
                    assert(views(scopes@)[i] == views(before)[i]);
                }
            }
        }
        core::mem::swap(&mut self.scopes, &mut scopes);
        let _ = self.scopes.len();
        Some(at)
    }

    /// Binds `name` to `value` in `scope` alone, in place of what it was
    /// bound to there. Nothing happens where `scope` is no scope.
    pub fn define(&mut self, scope: usize, name: String, value: &Object)
        ensures
            final(self)@ == bind(old(self)@, scope, name@, value@),
    {
        proof {
            use_type_invariant(&*self);
        }
        if scope >= self.scopes.len() {
            return ;
        }
        let ghost before = self.scopes@;
        let mut scopes = lone_scope();
        core::mem::swap(&mut self.scopes, &mut scopes);
        let mut changed = Scope {
            enclosing: None,
            values: NameMap::new(),
            is_repl: false,
            captured: false,
        };
        core::mem::swap(&mut scopes[scope], &mut changed);
        changed.values.insert(name, value.clone());
        core::mem::swap(&mut scopes[scope], &mut changed);
        proof {
            assert(views(scopes@) =~= bind(views(before), scope, name@, value@));
        }
        core::mem::swap(&mut self.scopes, &mut scopes);
    }

    /// Notes that a function has closed over `scope`. Nothing happens
    /// where `scope` is no scope.
    pub fn capture(&mut self, scope: usize)
        ensures
            final(self)@ == capture(old(self)@, scope),
    {
        proof {
            use_type_invariant(&*self);
        }
        if scope >= self.scopes.len() {
            return ;
        }
        let ghost before = self.scopes@;
        let mut scopes = lone_scope();
        core::mem::swap(&mut self.scopes, &mut scopes);
        let mut changed = Scope {
            enclosing: None,
            values: NameMap::new(),
            is_repl: false,
            captured: false,
        };
        core::mem::swap(&mut scopes[scope], &mut changed);
        changed.captured = true;
        core::mem::swap(&mut scopes[scope], &mut changed);
        proof {
            assert(views(scopes@) =~= capture(views(before), scope));
        }
        core::mem::swap(&mut self.scopes, &mut scopes);
    }

    /// Lets `scope` go where it was the last one made and no function has
    /// closed over it; else nothing happens.
    pub fn release(&mut self, scope: usize)
        ensures
            final(self)@ == release(old(self)@, scope),
    {
        proof {
            use_type_invariant(&*self);
        }
        let count = self.scopes.len();
        if scope == 0 || scope >= count || scope + 1 != count || self.scopes[scope].captured {
            return ;
        }
        let ghost before = self.scopes@;
        let mut scopes = lone_scope();
        core::mem::swap(&mut self.scopes, &mut scopes);
        let _ = scopes.pop();
        proof {
            assert(views(scopes@) =~= release(views(before), scope));
        }
        core::mem::swap(&mut self.scopes, &mut scopes);
    }

    /// Whether a function has closed over `scope`.
    pub fn is_captured(&self, scope: usize) -> (flag: bool)
        ensures
            flag == (scope < self@.len() && self@[scope as int].captured),
    {
        scope < self.scopes.len() && self.scopes[scope].captured
    }

    /// The place of the nearest scope, from `scope` outward, that binds
    /// `name`.
    pub fn find(&self, scope: usize, name: &String) -> (found: Option<usize>)
        ensures
            found == holder(self@, scope, name@),
            match found {
                Some(at) => at < self@.len() && self@[at as int].values.contains_key(name@),
                None => true,
            },
    {
        proof {
            use_type_invariant(self);
        }
        if scope >= self.scopes.len() {
            return None;
        }
        let mut at = scope;
        loop
            invariant
                at < self.scopes@.len(),
                chained(views(self.scopes@)),
                holder(self@, at, name@) == holder(self@, scope, name@),
            decreases at,
        {
            assert(views(self.scopes@)[at as int] == self.scopes@[at as int]@);
            if self.scopes[at].values.contains_key(name) {
                return Some(at);
            }
            match self.scopes[at].enclosing {
                Some(outer) => {
                    at = outer;
                },
                None => {
                    return None;
                },
            }
        }
    }

    /// The value of `name` in the nearest scope, from `scope` outward, that
    /// binds it; an error where none does.
    pub fn get(&self, scope: usize, name: &Token) -> (found: Result<Object, Error>)
        ensures
            match found {
                Ok(value) => lookup(self@, scope, name.lexeme@) == Some(value@),
                Err(error) => lookup(self@, scope, name.lexeme@) is None && error@
                    == undefined_variable(*name),
            },
    {
        match self.find(scope, &name.lexeme) {
            Some(at) => {
                assert(views(self.scopes@)[at as int] == self.scopes@[at as int]@);
                match self.scopes[at].values.get(&name.lexeme) {
                    Some(value) => Ok(value.clone()),
                    None => Err(undefined(name)),
                }
            },
            None => Err(undefined(name)),
        }
    }

    /// The place of the scope `distance` steps out of `scope`.
    pub fn ancestor(&self, scope: usize, distance: usize) -> (found: Option<usize>)
        ensures
            found == ancestor(self@, scope, distance as nat),
            match found {
                Some(at) => at < self@.len(),
                None => true,
            },
    {
        let mut at = scope;
        let mut left = distance;
        loop
            invariant
                ancestor(self@, at, left as nat) == ancestor(self@, scope, distance as nat),
            decreases left,
        {
            if at >= self.scopes.len() {
                return None;
            }
            if left == 0 {
                return Some(at);
            }
            assert(views(self.scopes@)[at as int] == self.scopes@[at as int]@);
            match self.scopes[at].enclosing {
                Some(outer) => {
                    at = outer;
                    left = left - 1;
                },
                None => {
                    return None;
                },
            }
        }
    }

    /// The value of `name` in the scope `distance` steps out of `scope`,
    /// where that scope exists and binds it.
    pub fn find_at(&self, scope: usize, distance: usize, name: &String) -> (found: Option<Object>)
        ensures
            match found {
                Some(value) => lookup_at(self@, scope, distance as nat, name@) == Some(value@),
                None => lookup_at(self@, scope, distance as nat, name@) is None,
            },
    {
        match self.ancestor(scope, distance) {
            Some(at) => {
                assert(views(self.scopes@)[at as int] == self.scopes@[at as int]@);
                match self.scopes[at].values.get(name) {
                    Some(value) => Some(value.clone()),
                    None => None,
                }
            },
            None => None,
        }
    }

    /// The value of `name` in the scope `distance` steps out of `scope`.
    /// The caller knows from the resolver that the scope exists and binds
    /// the name.
    pub fn get_at(&self, scope: usize, distance: usize, name: &String) -> (value: Object)
        requires
            lookup_at(self@, scope, distance as nat, name@) is Some,
        ensures
            lookup_at(self@, scope, distance as nat, name@) == Some(value@),
    {
        match self.find_at(scope, distance, name) {
            Some(value) => value,
            None => Object::nil(),
        }
    }

    /// Gives `name` a new value in the nearest scope, from `scope` outward,
    /// that binds it; an error, and nothing changed, where none does.
    pub fn assign(&mut self, scope: usize, name: &Token, value: &Object) -> (done: Result<(), Error>)
        ensures
            final(self)@ == rebind(old(self)@, scope, name.lexeme@, value@),
            match done {
                Ok(_) => holder(old(self)@, scope, name.lexeme@) is Some,
                Err(error) => holder(old(self)@, scope, name.lexeme@) is None && error@
                    == undefined_variable(*name),
            },
    {
        match self.find(scope, &name.lexeme) {
            Some(at) => {
                self.define(at, name.lexeme.clone(), value);
                Ok(())
            },
            None => Err(undefined(name)),
        }
    }

    /// Binds `name` in the scope `distance` steps out of `scope`. The
    /// caller knows from the resolver that the scope exists.
    pub fn assign_at(&mut self, scope: usize, distance: usize, name: &Token, value: &Object)
        requires
            ancestor(old(self)@, scope, distance as nat) is Some,
        ensures
            final(self)@ == bind_at(old(self)@, scope, distance as nat, name.lexeme@, value@),
    {
        match self.ancestor(scope, distance) {
            Some(at) => {
                self.define(at, name.lexeme.clone(), value);
            },
            None => {},
        }
    }
}

/// The error of a name that no scope binds.
pub(crate) fn undefined(name: &Token) -> (error: Error)
    ensures
        error@ == undefined_variable(*name),
{
    let mut message = String::from_str("Undefined variable '");
    message.append(name.lexeme.as_str());
    message.append("'.");
    Error::RuntimeError(name.clone(), message)
}

} // verus!
