//! The interpreter: it walks the tree of a program and does what the
//! program means, as [`crate::semantics`] states it.

use vstd::prelude::*;
use vstd::string::*;
use std::collections::HashMap;
use std::rc::Rc;
use crate::callable::{share, Clock, LoxCallable, LoxFunction};
use crate::environment::{bind, nest, undefined, Environment};
use crate::error::{runtime_error, texts, Error, ErrorView};
use crate::expr::Expr;
use crate::float_unit::FloatUnit;
use crate::lox_class::LoxClass;
use crate::lox_instance::{InstanceView, LoxInstance};
use crate::name_map::NameMap;
use crate::object::{Object, Value};
use crate::operators::{agrees, binary_op, unary_op};
use crate::resolver::{fresh, resolve_stmts, Resolver};
use crate::semantics::{
    after_failure,
    arity_mismatch,
    bind_parameters,
    call_function,
    call_value,
    declare_methods,
    eval,
    eval_arguments,
    eval_assign,
    eval_binary,
    eval_call,
    eval_get,
    eval_logical,
    eval_set,
    eval_unary,
    exec,
    exec_block,
    exec_class,
    exec_expression,
    exec_if,
    exec_list,
    exec_print,
    exec_return,
    exec_scoped,
    exec_var,
    exec_while,
    get_property,
    instantiate,
    printed,
    read_variable,
    render,
    run,
    set_field,
    Flow,
    Outcome,
    State,
};
use crate::stmt::{FunctionDecl, Stmt};
use crate::text::{isize_text, usize_text};
use crate::token::{Literal, Token};
use crate::token_type::TokenType;

verus! {

broadcast use vstd::std_specs::hash::group_hash_axioms;

/// How the execution of a statement ends where it does not fail.
pub enum Completion {
    /// The next statement follows.
    Normal,
    /// A `return` is on its way to the call it ends.
    Return(Token, Object),
}

impl View for Completion {
    type V = Flow;

    open spec fn view(&self) -> Flow {
        match *self {
            Completion::Normal => Flow::Normal,
            Completion::Return(keyword, value) => Flow::Return(keyword, value@),
        }
    }
}

/// The values that a list of objects stands for.
pub open spec fn values_of(objects: Seq<Object>) -> Seq<Value> {
    objects.map_values(|object: Object| object@)
}

/// The instances that a list of records stands for.
pub open spec fn instances_of(records: Seq<LoxInstance>) -> Seq<InstanceView> {
    records.map_values(|record: LoxInstance| record@)
}

/// The errors that a list of reports stands for.
pub open spec fn errors_of(reports: Seq<Error>) -> Seq<ErrorView> {
    reports.map_values(|report: Error| report@)
}

/// The current scope of a state is one of its scopes.
pub open spec fn valid(s: State) -> bool {
    s.current < s.scopes.len()
}

/// What holds between the states before and after anything the
/// interpreter does, whatever the floating-point unit and the clock
/// answer: the current scope is the same and still a scope, no scope that
/// was there before and no instance is gone, every such scope lies inside
/// the scope it was made in, and what was printed stays printed.
pub open spec fn lasting(before: State, after: State) -> bool {
    &&& valid(after)
    &&& after.current == before.current
    &&& before.scopes.len() <= after.scopes.len()
    &&& forall|i: int|
        0 <= i < before.scopes.len() ==> (#[trigger] after.scopes[i]).enclosing
            == before.scopes[i].enclosing
    &&& before.instances.len() <= after.instances.len()
    &&& before.output.len() <= after.output.len()
    &&& forall|i: int| 0 <= i < before.output.len() ==> after.output[i] == before.output[i]
}

/// What holds between the states before and after any evaluation: what
/// [`lasting`] says, and the resolver's table and the reports are as they
/// were.
pub open spec fn steady(before: State, after: State) -> bool {
    &&& lasting(before, after)
    &&& after.locals == before.locals
    &&& after.reports == before.reports
}

/// The state and the result of an evaluation are those that were meant;
/// where the result is an answer from outside, the state is the one meant
/// and the result is of the kind meant. Of an outcome beyond such an
/// answer nothing is said.
pub open spec fn follows(
    state: State,
    result: Result<Object, Error>,
    meant: (State, Outcome<Value>),
) -> bool {
    meant.1 is Beyond || (state == meant.0 && agrees(result, meant.1))
}

/// The state after a statement and the way it ended are those that were
/// meant. Of an outcome beyond an answer from outside nothing is said.
pub open spec fn follows_flow(
    state: State,
    result: Result<Completion, Error>,
    meant: (State, Outcome<Flow>),
) -> bool {
    match meant.1 {
        Outcome::Done(flow) => state == meant.0 && (result matches Ok(got) && got@ == flow),
        Outcome::Failed(error) => state == meant.0 && (result matches Err(got) && got@ == error),
        _ => true,
    }
}

/// A run that reported nothing returns `Ok`, and one that reported
/// something returns the first error that it added to the reports.
pub open spec fn first_report(
    before: Seq<ErrorView>,
    after: Seq<ErrorView>,
    result: Result<(), Error>,
) -> bool {
    match result {
        Ok(_) => after == before,
        Err(error) => before.len() < after.len() && after[before.len() as int] == error@,
    }
}

/// The interpreter of one session: its scopes, its instances, what the
/// resolver found, what the program printed and which errors were reported.
pub struct Interpreter {
    environment: Environment,
    instances: Vec<LoxInstance>,
    current: usize,
    locals: HashMap<usize, usize>,
    output: Vec<String>,
    reports: Vec<Error>,
    budget: u64,
}

impl View for Interpreter {
    type V = State;

    closed spec fn view(&self) -> State {
        State {
            scopes: self.environment@,
            instances: instances_of(self.instances@),
            current: self.current,
            locals: self.locals@,
            output: texts(self.output@),
            reports: errors_of(self.reports@),
        }
    }
}

/// The error of a call with the wrong number of arguments.
fn arity_error(paren: &Token, expected: usize, got: usize) -> (error: Error)
    ensures
        error@ == arity_mismatch(*paren, expected as nat, got as nat),
{
    let mut message = String::from_str("Expected ");
    let wanted = usize_text(expected);
    message.append(wanted.as_str());
    message.append(" arguments but got ");
    let brought = usize_text(got);
    message.append(brought.as_str());
    message.append(".");
    Error::RuntimeError(paren.clone(), message)
}

impl Interpreter {
    /// The state that an interpreter starts in on the given scopes: the
    /// clock is bound in the global scope, which is the current one.
    pub open spec fn initial(scopes: Seq<crate::environment::ScopeView>) -> State {
        State {
            scopes: bind(scopes, 0, "clock"@, Value::Clock),
            instances: Seq::empty(),
            current: 0,
            locals: Map::empty(),
            output: Seq::empty(),
            reports: Seq::empty(),
        }
    }

    /// An interpreter on the given scopes, with the largest budget.
    pub fn new(environment: Environment) -> (interpreter: Interpreter)
        ensures
            interpreter@ == Self::initial(environment@),
            valid(interpreter@),
            interpreter.spec_budget() == u64::MAX,
    {
        let mut environment = environment;
        let _ = environment.len();
        environment.define(0, String::from_str("clock"), &Object::Clock(Clock {  }));
        let interpreter = Interpreter {
            environment,
            instances: Vec::new(),
            current: 0,
            locals: HashMap::new(),
            output: Vec::new(),
            reports: Vec::new(),
            budget: u64::MAX,
        };
        assert(interpreter@.instances =~= Seq::empty());
        assert(interpreter@.output =~= Seq::empty());
        assert(interpreter@.reports =~= Seq::empty());
        assert(interpreter@.locals =~= Map::empty());
        interpreter
    }

    /// The budget that [`Interpreter::interpret`] gives each statement of a
    /// program.
    pub closed spec fn spec_budget(&self) -> u64 {
        self.budget
    }

    /// The budget that [`Interpreter::interpret`] gives each statement of a
    /// program.
    pub fn budget(&self) -> (budget: u64)
        ensures
            budget == self.spec_budget(),
    {
        self.budget
    }

    /// Sets the budget and leaves the state as it is.
    pub fn set_budget(&mut self, budget: u64)
        ensures
            final(self)@ == old(self)@,
            final(self).spec_budget() == budget,
    {
        self.budget = budget;
    }

    /// The scopes.
    pub fn environment(&self) -> (environment: &Environment)
        ensures
            environment@ == self@.scopes,
    {
        &self.environment
    }

    /// The lines printed so far.
    pub fn output(&self) -> (lines: &Vec<String>)
        ensures
            texts(lines@) == self@.output,
    {
        &self.output
    }

    /// The errors reported so far.
    pub fn reports(&self) -> (reports: &Vec<Error>)
        ensures
            errors_of(reports@) == self@.reports,
    {
        &self.reports
    }

    /// Records that the name of expression `id` is bound `distance` scopes
    /// out of the scope the expression is evaluated in.
    pub fn resolve(&mut self, id: usize, distance: usize)
        ensures
            final(self)@ == (State { locals: old(self)@.locals.insert(id, distance), ..old(self)@ }),
            final(self).spec_budget() == old(self).spec_budget(),
    {
        self.locals.insert(id, distance);
    }

    /// The text that `print` shows for a value. A floating-point number is
    /// handed to the unit.
    pub fn stringify<F: FloatUnit>(&self, unit: &F, value: &Object) -> (text: String)
        ensures
            match render(self@.instances, value@) {
                Some(line) => text@ == line,
                None => true,
            },
    {
        match value {
            Object::Literal(Literal::Nil) => String::from_str("nil"),
            Object::Literal(Literal::Bool(b)) => if *b {
                String::from_str("true")
            } else {
                String::from_str("false")
            },
            Object::Literal(Literal::Isize(i)) => isize_text(*i),
            Object::Literal(Literal::Float(bits)) => unit.render(*bits),
            Object::Literal(Literal::String(s)) => s.clone(),
            Object::Func(function) => {
                let mut text = String::from_str("<fn ");
                text.append(function.declaration.name.lexeme.as_str());
                text.append(">");
                text
            },
            Object::Clock(_) => String::from_str("<native fn>"),
            Object::Class(class) => class.name.clone(),
            Object::Instance(handle) => if *handle < self.instances.len() {
                let mut text = self.instances[*handle].class.name.clone();
                text.append(" instance");
                text
            } else {
                String::from_str("instance")
            },
        }
    }

    /// Prints a line.
    fn emit(&mut self, line: String)
        ensures
            final(self)@ == printed(old(self)@, line@),
            final(self).spec_budget() == old(self).spec_budget(),
    {
        self.output.push(line);
        assert(texts(self.output@) =~= texts(old(self).output@).push(line@));
    }

    /// The value of an expression.
    pub fn evaluate<F: FloatUnit>(&mut self, unit: &F, expr: &Expr, fuel: u64) -> (result: Result<
        Object,
        Error,
    >)
        requires
            valid(old(self)@),
        ensures
            steady(old(self)@, final(self)@),
            follows(final(self)@, result, eval(old(self)@, *expr, fuel as nat)),
            final(self).spec_budget() == old(self).spec_budget(),
        decreases fuel, 0nat, 0nat,
    {
        if fuel == 0 {
            return Err(Error::Exhausted);
        }
        let f = fuel - 1;
        match expr {
            Expr::Literal { value } => Ok(Object::Literal(value.clone())),
            Expr::Grouping { expression } => self.evaluate(unit, expression, f),
            Expr::Unary { operator, right } => self.visit_unary(unit, operator, right, f),
            Expr::Binary { left, operator, right } => self.visit_binary(
                unit,
                left,
                operator,
                right,
                f,
            ),
            Expr::Logical { left, operator, right } => self.visit_logical(
                unit,
                left,
                operator,
                right,
                f,
            ),
            Expr::Variable { name, id } => self.visit_variable(name, *id),
            Expr::Assign { name, value, id } => self.visit_assign(unit, name, value, *id, f),
            Expr::Call { callee, paren, arguments } => self.visit_call(
                unit,
                callee,
                paren,
                arguments,
                f,
            ),
            Expr::Get { object, name } => self.visit_get(unit, object, name, f),
            Expr::SetField { object, name, value } => self.visit_set(unit, object, name, value, f),
            Expr::This { keyword, id } => self.visit_variable(keyword, *id),
        }
    }

    /// A unary operator: the operand is evaluated, then the operator
    /// applied.
    fn visit_unary<F: FloatUnit>(&mut self, unit: &F, operator: &Token, right: &Expr, fuel: u64) -> (result:
        Result<Object, Error>)
        requires
            valid(old(self)@),
        ensures
            steady(old(self)@, final(self)@),
            follows(final(self)@, result, eval_unary(old(self)@, *operator, *right, fuel as nat)),
            final(self).spec_budget() == old(self).spec_budget(),
        decreases fuel, 9nat, 0nat,
    {
        let value = self.evaluate(unit, right, fuel)?;
        unary_op(unit, operator, &value)
    }

    /// A binary operator: the left operand is evaluated, then the right,
    /// then the operator applied.
    fn visit_binary<F: FloatUnit>(
        &mut self,
        unit: &F,
        left: &Expr,
        operator: &Token,
        right: &Expr,
        fuel: u64,
    ) -> (result: Result<Object, Error>)
        requires
            valid(old(self)@),
        ensures
            steady(old(self)@, final(self)@),
            follows(
                final(self)@,
                result,
                eval_binary(old(self)@, *left, *operator, *right, fuel as nat),
            ),
            final(self).spec_budget() == old(self).spec_budget(),
        decreases fuel, 9nat, 0nat,
    {
        let a = self.evaluate(unit, left, fuel)?;
        let b = self.evaluate(unit, right, fuel)?;
        binary_op(unit, operator, &a, &b)
    }

    /// `or` and `and`: the right operand is evaluated only where the left
    /// one does not settle the operator.
    fn visit_logical<F: FloatUnit>(
        &mut self,
        unit: &F,
        left: &Expr,
        operator: &Token,
        right: &Expr,
        fuel: u64,
    ) -> (result: Result<Object, Error>)
        requires
            valid(old(self)@),
        ensures
            steady(old(self)@, final(self)@),
            follows(
                final(self)@,
                result,
                eval_logical(old(self)@, *left, *operator, *right, fuel as nat),
            ),
            final(self).spec_budget() == old(self).spec_budget(),
        decreases fuel, 9nat, 0nat,
    {
        let a = self.evaluate(unit, left, fuel)?;
        let truth = a.is_truthy();
        let settled = if operator.token_type == TokenType::Or {
            truth
        } else {
            !truth
        };
        if settled {
            Ok(a)
        } else {
            self.evaluate(unit, right, fuel)
        }
    }

    /// A variable read, by the resolver's distance where there is one, else
    /// in the global scope.
    fn visit_variable(&self, name: &Token, id: usize) -> (result: Result<Object, Error>)
        ensures
            agrees(result, read_variable(self@, *name, id)),
    {
        match self.locals.get(&id) {
            Some(distance) => match self.environment.find_at(self.current, *distance, &name.lexeme) {
                Some(value) => Ok(value),
                None => Err(undefined(name)),
            },
            None => self.environment.get(0, name),
        }
    }

    /// An assignment: the value is evaluated, then written.
    fn visit_assign<F: FloatUnit>(
        &mut self,
        unit: &F,
        name: &Token,
        value: &Expr,
        id: usize,
        fuel: u64,
    ) -> (result: Result<Object, Error>)
        requires
            valid(old(self)@),
        ensures
            steady(old(self)@, final(self)@),
            follows(
                final(self)@,
                result,
                eval_assign(old(self)@, *name, *value, id, fuel as nat),
            ),
            final(self).spec_budget() == old(self).spec_budget(),
        decreases fuel, 9nat, 0nat,
    {
        let v = self.evaluate(unit, value, fuel)?;
        let distance = match self.locals.get(&id) {
            Some(distance) => Some(*distance),
            None => None,
        };
        match distance {
            Some(distance) => match self.environment.ancestor(self.current, distance) {
                Some(at) => {
                    self.environment.define(at, name.lexeme.clone(), &v);
                    Ok(v)
                },
                None => Err(undefined(name)),
            },
            None => match self.environment.assign(0, name, &v) {
                Ok(_) => Ok(v),
                Err(error) => Err(error),
            },
        }
    }

    /// A call: the callee is evaluated, then the arguments from left to
    /// right, then the call made.
    fn visit_call<F: FloatUnit>(
        &mut self,
        unit: &F,
        callee: &Expr,
        paren: &Token,
        arguments: &Vec<Expr>,
        fuel: u64,
    ) -> (result: Result<Object, Error>)
        requires
            valid(old(self)@),
        ensures
            steady(old(self)@, final(self)@),
            follows(
                final(self)@,
                result,
                eval_call(old(self)@, *callee, *paren, *arguments, fuel as nat),
            ),
            final(self).spec_budget() == old(self).spec_budget(),
        decreases fuel, 9nat, 0nat,
    {
        let target = self.evaluate(unit, callee, fuel)?;
        let ghost entered = self@;
        let ghost goal = eval_arguments(entered, *arguments, 0, Seq::empty(), fuel as nat);
        let mut values: Vec<Object> = Vec::new();
        let mut i: usize = 0;
        assert(values_of(values@) =~= Seq::empty());
        while i < arguments.len()
            invariant
                i <= arguments.len(),
                valid(old(self)@),
                steady(old(self)@, self@),
                self.budget == old(self).budget,
                follows(
                    entered,
                    Ok::<Object, Error>(target),
                    eval(old(self)@, *callee, fuel as nat),
                ),
                goal == eval_arguments(entered, *arguments, 0, Seq::empty(), fuel as nat),
                goal.1 is Beyond || eval_arguments(
                    self@,
                    *arguments,
                    i as nat,
                    values_of(values@),
                    fuel as nat,
                ) == goal,
            decreases arguments.len() - i,
        {
            let ghost done = values_of(values@);
            match self.evaluate(unit, &arguments[i], fuel) {
                Ok(value) => {
                    values.push(value);
                    assert(values_of(values@) =~= done.push(value@));
                },
                Err(error) => {
                    return Err(error);
                },
            }
            i = i + 1;
        }
        self.call(unit, &target, paren, values, fuel)
    }

    /// The call of a value with the values of the arguments.
    pub fn call<F: FloatUnit>(
        &mut self,
        unit: &F,
        target: &Object,
        paren: &Token,
        arguments: Vec<Object>,
        fuel: u64,
    ) -> (result: Result<Object, Error>)
        requires
            valid(old(self)@),
        ensures
            steady(old(self)@, final(self)@),
            follows(
                final(self)@,
                result,
                call_value(old(self)@, target@, *paren, values_of(arguments@), fuel as nat),
            ),
            final(self).spec_budget() == old(self).spec_budget(),
        decreases fuel, 8nat, 0nat,
    {
        match target {
            Object::Func(function) => {
                if arguments.len() != function.arity() {
                    return Err(arity_error(paren, function.arity(), arguments.len()));
                }
                self.call_function(unit, function, paren, arguments, fuel)
            },
            Object::Clock(clock) => {
                if arguments.len() != 0 {
                    return Err(arity_error(paren, 0, arguments.len()));
                }
                clock.call(paren)
            },
            Object::Class(class) => {
                let arity = class.arity();
                if arguments.len() != arity {
                    return Err(arity_error(paren, arity, arguments.len()));
                }
                self.instantiate(unit, class, paren, arguments, fuel)
            },
            _ => Err(runtime_error(paren, "Can only call functions and classes.")),
        }
    }

    /// The call of a function: its body runs in a new scope inside the
    /// scope the function was declared in, with the parameters bound to the
    /// arguments.
    fn call_function<F: FloatUnit>(
        &mut self,
        unit: &F,
        function: &LoxFunction,
        paren: &Token,
        arguments: Vec<Object>,
        fuel: u64,
    ) -> (result: Result<Object, Error>)
        requires
            valid(old(self)@),
        ensures
            steady(old(self)@, final(self)@),
            follows(
                final(self)@,
                result,
                call_function(old(self)@, *function, *paren, values_of(arguments@), fuel as nat),
            ),
            final(self).spec_budget() == old(self).spec_budget(),
        decreases fuel, 5nat, 0nat,
    {
        let scope = match self.environment.nest(function.closure) {
            Some(scope) => scope,
            None => {
                return Err(runtime_error(paren, "Function scope is not of this interpreter."));
            },
        };
        let declaration = share(&function.declaration);
        let ghost nested = self.environment@;
        let ghost goal = bind_parameters(
            nested,
            scope,
            declaration.params@,
            values_of(arguments@),
            0,
        );
        let mut i: usize = 0;
        while i < declaration.params.len() && i < arguments.len()
            invariant
                valid(old(self)@),
                function.closure < old(self)@.scopes.len(),
                scope == old(self)@.scopes.len(),
                self.environment@.len() == old(self)@.scopes.len() + 1,
                forall|k: int|
                    0 <= k < old(self)@.scopes.len() ==> (#[trigger] self.environment@[k]).enclosing
                        == old(self)@.scopes[k].enclosing,
                self@ == (State { scopes: self.environment@, ..old(self)@ }),
                self.budget == old(self).budget,
                declaration == function.declaration,
                nested == nest(old(self)@.scopes, function.closure),
                goal == bind_parameters(
                    nested,
                    scope,
                    declaration.params@,
                    values_of(arguments@),
                    0,
                ),
                bind_parameters(
                    self.environment@,
                    scope,
                    declaration.params@,
                    values_of(arguments@),
                    i as nat,
                ) == goal,
            decreases declaration.params.len() - i,
        {
            self.environment.define(scope, declaration.params[i].lexeme.clone(), &arguments[i]);
            i = i + 1;
        }
        let ended = self.execute_block(unit, &declaration.body, scope, fuel);
        self.environment.release(scope);
        match ended {
            Ok(Completion::Normal) => Ok(Object::nil()),
            Ok(Completion::Return(_, value)) => Ok(value),
            Err(error) => Err(error),
        }
    }

    /// The call of a class: a new instance is made, and the initialiser,
    /// where the class has one, runs on it with the arguments.
    fn instantiate<F: FloatUnit>(
        &mut self,
        unit: &F,
        class: &Rc<LoxClass>,
        paren: &Token,
        arguments: Vec<Object>,
        fuel: u64,
    ) -> (result: Result<Object, Error>)
        requires
            valid(old(self)@),
        ensures
            steady(old(self)@, final(self)@),
            follows(
                final(self)@,
                result,
                instantiate(old(self)@, class@, *paren, values_of(arguments@), fuel as nat),
            ),
            final(self).spec_budget() == old(self).spec_budget(),
        decreases fuel, 6nat, 0nat,
    {
        let handle = self.instances.len();
        let record = LoxInstance::new(share(class));
        self.instances.push(record);
        assert(instances_of(self.instances@) =~= instances_of(old(self).instances@).push(
            InstanceView { class: class@, fields: Map::empty() },
        ));
        let init = String::from_str("init");
        match class.find_method(&init) {
            Some(initializer) => match initializer.bind(handle, &mut self.environment) {
                Some(bound) => match self.call_function(unit, &bound, paren, arguments, fuel) {
                    Ok(_) => Ok(Object::Instance(handle)),
                    Err(error) => Err(error),
                },
                None => Err(runtime_error(paren, "Function scope is not of this interpreter.")),
            },
            None => Ok(Object::Instance(handle)),
        }
    }

    /// A property read.
    fn visit_get<F: FloatUnit>(&mut self, unit: &F, object: &Expr, name: &Token, fuel: u64) -> (result:
        Result<Object, Error>)
        requires
            valid(old(self)@),
        ensures
            steady(old(self)@, final(self)@),
            follows(final(self)@, result, eval_get(old(self)@, *object, *name, fuel as nat)),
            final(self).spec_budget() == old(self).spec_budget(),
        decreases fuel, 9nat, 0nat,
    {
        let target = self.evaluate(unit, object, fuel)?;
        self.property(&target, name)
    }

    /// The property `name` of a value: a field of an instance, else a
    /// method of its class bound to it.
    pub fn property(&mut self, target: &Object, name: &Token) -> (result: Result<Object, Error>)
        requires
            valid(old(self)@),
        ensures
            steady(old(self)@, final(self)@),
            follows(final(self)@, result, get_property(old(self)@, target@, *name)),
            final(self).spec_budget() == old(self).spec_budget(),
    {
        match target {
            Object::Instance(handle) => {
                if *handle >= self.instances.len() {
                    return Err(runtime_error(name, "Only instances have properties."));
                }
                self.instances[*handle].get(name, *handle, &mut self.environment)
            },
            _ => Err(runtime_error(name, "Only instances have properties.")),
        }
    }

    /// A property write.
    fn visit_set<F: FloatUnit>(
        &mut self,
        unit: &F,
        object: &Expr,
        name: &Token,
        value: &Expr,
        fuel: u64,
    ) -> (result: Result<Object, Error>)
        requires
            valid(old(self)@),
        ensures
            steady(old(self)@, final(self)@),
            follows(
                final(self)@,
                result,
                eval_set(old(self)@, *object, *name, *value, fuel as nat),
            ),
            final(self).spec_budget() == old(self).spec_budget(),
        decreases fuel, 9nat, 0nat,
    {
        let target = self.evaluate(unit, object, fuel)?;
        let handle = match target {
            Object::Instance(handle) => handle,
            _ => {
                return Err(runtime_error(name, "Only instances have fields."));
            },
        };
        if handle >= self.instances.len() {
            return Err(runtime_error(name, "Only instances have fields."));
        }
        let v = self.evaluate(unit, value, fuel)?;
        if handle < self.instances.len() {
            let ghost before = self.instances@;
            let mut record = LoxInstance::new(share(&self.instances[handle].class));
            core::mem::swap(&mut self.instances[handle], &mut record);
            record.set(&name.lexeme, &v);
            core::mem::swap(&mut self.instances[handle], &mut record);
            assert(instances_of(self.instances@) =~= set_field(
                State { instances: instances_of(before), ..self@ },
                handle,
                name.lexeme@,
                v@,
            ).instances);
        }
        Ok(v)
    }

    /// Runs a statement.
    pub fn execute<F: FloatUnit>(&mut self, unit: &F, statement: &Stmt, fuel: u64) -> (result: Result<
        Completion,
        Error,
    >)
        requires
            valid(old(self)@),
        ensures
            steady(old(self)@, final(self)@),
            follows_flow(final(self)@, result, exec(old(self)@, *statement, fuel as nat)),
            final(self).spec_budget() == old(self).spec_budget(),
        decreases fuel, 0nat, 0nat,
    {
        if fuel == 0 {
            return Err(Error::Exhausted);
        }
        let f = fuel - 1;
        match statement {
            Stmt::Expression { expression } => self.visit_expression_stmt(unit, expression, f),
            Stmt::Print { expression } => self.visit_print_stmt(unit, expression, f),
            Stmt::Var { name, initializer } => self.visit_var_stmt(unit, name, initializer, f),
            Stmt::Block { statements } => self.visit_block_stmt(unit, statements, f),
            Stmt::If { condition, then_branch, else_branch } => self.visit_if_stmt(
                unit,
                condition,
                then_branch,
                else_branch,
                f,
            ),
            Stmt::While { condition, body } => self.visit_while_stmt(unit, condition, body, f),
            Stmt::Function { declaration } => {
                let function = Object::Func(LoxFunction::new(share(declaration), self.current));
                self.environment.capture(self.current);
                self.environment.define(self.current, declaration.name.lexeme.clone(), &function);
                Ok(Completion::Normal)
            },
            Stmt::Return { keyword, value } => self.visit_return_stmt(unit, keyword, value, f),
            Stmt::Class { name, superclass, methods } => self.visit_class_stmt(
                unit,
                name,
                superclass,
                methods,
                f,
            ),
        }
    }

    /// An expression statement.
    fn visit_expression_stmt<F: FloatUnit>(&mut self, unit: &F, expression: &Expr, fuel: u64) -> (result:
        Result<Completion, Error>)
        requires
            valid(old(self)@),
        ensures
            steady(old(self)@, final(self)@),
            follows_flow(final(self)@, result, exec_expression(old(self)@, *expression, fuel as nat)),
            final(self).spec_budget() == old(self).spec_budget(),
        decreases fuel, 9nat, 0nat,
    {
        let value = self.evaluate(unit, expression, fuel)?;
        if self.environment.is_repl(self.current) {
            let line = self.stringify(unit, &value);
            self.emit(line);
        }
        Ok(Completion::Normal)
    }

    /// `print`.
    fn visit_print_stmt<F: FloatUnit>(&mut self, unit: &F, expression: &Expr, fuel: u64) -> (result:
        Result<Completion, Error>)
        requires
            valid(old(self)@),
        ensures
            steady(old(self)@, final(self)@),
            follows_flow(final(self)@, result, exec_print(old(self)@, *expression, fuel as nat)),
            final(self).spec_budget() == old(self).spec_budget(),
        decreases fuel, 9nat, 0nat,
    {
        let value = self.evaluate(unit, expression, fuel)?;
        let line = self.stringify(unit, &value);
        self.emit(line);
        Ok(Completion::Normal)
    }

    /// `var`.
    fn visit_var_stmt<F: FloatUnit>(
        &mut self,
        unit: &F,
        name: &Token,
        initializer: &Expr,
        fuel: u64,
    ) -> (result: Result<Completion, Error>)
        requires
            valid(old(self)@),
        ensures
            steady(old(self)@, final(self)@),
            follows_flow(
                final(self)@,
                result,
                exec_var(old(self)@, *name, *initializer, fuel as nat),
            ),
            final(self).spec_budget() == old(self).spec_budget(),
        decreases fuel, 9nat, 0nat,
    {
        let value = self.evaluate(unit, initializer, fuel)?;
        self.environment.define(self.current, name.lexeme.clone(), &value);
        Ok(Completion::Normal)
    }

    /// `return`.
    fn visit_return_stmt<F: FloatUnit>(
        &mut self,
        unit: &F,
        keyword: &Token,
        value: &Expr,
        fuel: u64,
    ) -> (result: Result<Completion, Error>)
        requires
            valid(old(self)@),
        ensures
            steady(old(self)@, final(self)@),
            follows_flow(
                final(self)@,
                result,
                exec_return(old(self)@, *keyword, *value, fuel as nat),
            ),
            final(self).spec_budget() == old(self).spec_budget(),
        decreases fuel, 9nat, 0nat,
    {
        let v = self.evaluate(unit, value, fuel)?;
        Ok(Completion::Return(keyword.clone(), v))
    }

    /// A block: its statements run in a new scope inside the current one,
    /// which is let go when they are over.
    fn visit_block_stmt<F: FloatUnit>(&mut self, unit: &F, statements: &Vec<Stmt>, fuel: u64) -> (result:
        Result<Completion, Error>)
        requires
            valid(old(self)@),
        ensures
            steady(old(self)@, final(self)@),
            follows_flow(final(self)@, result, exec_scoped(old(self)@, *statements, fuel as nat)),
            final(self).spec_budget() == old(self).spec_budget(),
        decreases fuel, 4nat, 0nat,
    {
        match self.environment.nest(self.current) {
            Some(scope) => {
                let ended = self.execute_block(unit, statements, scope, fuel);
                self.environment.release(scope);
                ended
            },
            None => Err(Error::Exhausted),
        }
    }

    /// `if`.
    fn visit_if_stmt<F: FloatUnit>(
        &mut self,
        unit: &F,
        condition: &Expr,
        then_branch: &Stmt,
        else_branch: &Option<Box<Stmt>>,
        fuel: u64,
    ) -> (result: Result<Completion, Error>)
        requires
            valid(old(self)@),
        ensures
            steady(old(self)@, final(self)@),
            follows_flow(
                final(self)@,
                result,
                exec_if(old(self)@, *condition, *then_branch, *else_branch, fuel as nat),
            ),
            final(self).spec_budget() == old(self).spec_budget(),
        decreases fuel, 9nat, 0nat,
    {
        let value = self.evaluate(unit, condition, fuel)?;
        if value.is_truthy() {
            self.execute(unit, then_branch, fuel)
        } else {
            match else_branch {
                Some(other) => self.execute(unit, other, fuel),
                None => Ok(Completion::Normal),
            }
        }
    }

    /// `while`.
    fn visit_while_stmt<F: FloatUnit>(
        &mut self,
        unit: &F,
        condition: &Expr,
        body: &Stmt,
        fuel: u64,
    ) -> (result: Result<Completion, Error>)
        requires
            valid(old(self)@),
        ensures
            steady(old(self)@, final(self)@),
            follows_flow(
                final(self)@,
                result,
                exec_while(old(self)@, *condition, *body, fuel as nat),
            ),
            final(self).spec_budget() == old(self).spec_budget(),
        decreases fuel, 9nat, 0nat,
    {
        let ghost goal = exec_while(old(self)@, *condition, *body, fuel as nat);
        let mut left = fuel;
        while left > 0
            invariant
                left <= fuel,
                valid(old(self)@),
                steady(old(self)@, self@),
                self.budget == old(self).budget,
                goal == exec_while(old(self)@, *condition, *body, fuel as nat),
                goal.1 is Beyond || goal.1 is Outside || exec_while(self@, *condition, *body, left as nat) == goal,
            decreases left,
        {
            let f = left - 1;
            let value = match self.evaluate(unit, condition, f) {
                Ok(value) => value,
                Err(error) => {
                    return Err(error);
                },
            };
            if !value.is_truthy() {
                return Ok(Completion::Normal);
            }
            match self.execute(unit, body, f) {
                Ok(Completion::Normal) => {},
                Ok(Completion::Return(keyword, v)) => {
                    return Ok(Completion::Return(keyword, v));
                },
                Err(error) => {
                    return Err(error);
                },
            }
            left = f;
        }
        Err(Error::Exhausted)
    }

    /// A class declaration.
    fn visit_class_stmt<F: FloatUnit>(
        &mut self,
        unit: &F,
        name: &Token,
        superclass: &Option<Expr>,
        methods: &Vec<Rc<FunctionDecl>>,
        fuel: u64,
    ) -> (result: Result<Completion, Error>)
        requires
            valid(old(self)@),
        ensures
            steady(old(self)@, final(self)@),
            follows_flow(
                final(self)@,
                result,
                exec_class(old(self)@, *name, *superclass, *methods, fuel as nat),
            ),
            final(self).spec_budget() == old(self).spec_budget(),
        decreases fuel, 9nat, 0nat,
    {
        let parent = match superclass {
            Some(expression) => match self.evaluate(unit, expression, fuel)? {
                Object::Class(class) => Some(class),
                _ => {
                    return Err(runtime_error(name, "Superclass must be a class."));
                },
            },
            None => None,
        };
        let ghost goal = declare_methods(Map::empty(), methods@, self.current, 0);
        let mut table: NameMap<LoxFunction> = NameMap::new();
        let mut i: usize = 0;
        while i < methods.len()
            invariant
                i <= methods.len(),
                declare_methods(table@, methods@, self.current, i as nat) == goal,
            decreases methods.len() - i,
        {
            let declaration = share(&methods[i]);
            let method_name = declaration.name.lexeme.clone();
            table.insert(method_name, LoxFunction::new(declaration, self.current));
            i = i + 1;
        }
        let class = Rc::new(LoxClass::new(name.lexeme.clone(), parent, table));
        self.environment.capture(self.current);
        self.environment.define(self.current, name.lexeme.clone(), &Object::Class(class));
        Ok(Completion::Normal)
    }

    /// Runs the statements with `scope` as the current scope; however they
    /// end, the scope that was current before is current again.
    pub fn execute_block<F: FloatUnit>(
        &mut self,
        unit: &F,
        statements: &Vec<Stmt>,
        scope: usize,
        fuel: u64,
    ) -> (result: Result<Completion, Error>)
        requires
            valid(old(self)@),
            scope < old(self)@.scopes.len(),
        ensures
            steady(old(self)@, final(self)@),
            follows_flow(
                final(self)@,
                result,
                exec_block(old(self)@, *statements, scope, fuel as nat),
            ),
            final(self).spec_budget() == old(self).spec_budget(),
        decreases fuel, 3nat, 0nat,
    {
        let previous = self.current;
        self.current = scope;
        let ghost entered = self@;
        let ghost goal = exec_list(entered, *statements, 0, fuel as nat);
        let mut i: usize = 0;
        let mut result: Result<Completion, Error> = Ok(Completion::Normal);
        while i < statements.len()
            invariant_except_break
                result == Ok::<Completion, Error>(Completion::Normal),
                goal.1 is Beyond || goal.1 is Outside || exec_list(self@, *statements, i as nat, fuel as nat) == goal,
            invariant
                i <= statements.len(),
                valid(entered),
                steady(entered, self@),
                self.budget == old(self).budget,
                goal == exec_list(entered, *statements, 0, fuel as nat),
            ensures
                steady(entered, self@),
                self.budget == old(self).budget,
                follows_flow(self@, result, goal),
            decreases statements.len() - i,
        {
            match self.execute(unit, &statements[i], fuel) {
                Ok(Completion::Normal) => {},
                Ok(Completion::Return(keyword, value)) => {
                    result = Ok(Completion::Return(keyword, value));
                    break ;
                },
                Err(error) => {
                    result = Err(error);
                    break ;
                },
            }
            i = i + 1;
        }
        self.current = previous;
        result
    }

    /// Runs a program. Each statement gets the whole budget. A statement
    /// that fails is reported, and so is a `return` that no call caught;
    /// an interactive session then drops the statements that follow, a
    /// program read from a file goes on with the next one. The first error
    /// reported is also returned.
    pub fn interpret<F: FloatUnit>(&mut self, unit: &F, statements: &Vec<Stmt>) -> (result: Result<
        (),
        Error,
    >)
        requires
            valid(old(self)@),
        ensures
            lasting(old(self)@, final(self)@),
            final(self)@.locals == old(self)@.locals,
            final(self).spec_budget() == old(self).spec_budget(),
            match run(old(self)@, *statements, 0, old(self).spec_budget() as nat) {
                Some(s) => final(self)@ == s,
                None => true,
            },
            old(self)@.reports.is_prefix_of(final(self)@.reports),
            first_report(old(self)@.reports, final(self)@.reports, result),
    {
        let ghost goal = run(old(self)@, *statements, 0, self.budget as nat);
        let mut first: Option<Error> = None;
        let mut i: usize = 0;
        while i < statements.len()
            invariant_except_break
                goal is None || run(self@, *statements, i as nat, self.budget as nat) == goal,
            invariant
                i <= statements.len(),
                valid(old(self)@),
                lasting(old(self)@, self@),
                self@.locals == old(self)@.locals,
                self.budget == old(self).budget,
                goal == run(old(self)@, *statements, 0, self.budget as nat),
                old(self)@.reports.is_prefix_of(self@.reports),
                match first {
                    None => self@.reports == old(self)@.reports,
                    Some(error) => old(self)@.reports.len() < self@.reports.len()
                        && self@.reports[old(self)@.reports.len() as int] == error@,
                },
            ensures
                lasting(old(self)@, self@),
                self@.locals == old(self)@.locals,
                self.budget == old(self).budget,
                goal is None || goal == Some(self@),
                old(self)@.reports.is_prefix_of(self@.reports),
                match first {
                    None => self@.reports == old(self)@.reports,
                    Some(error) => old(self)@.reports.len() < self@.reports.len()
                        && self@.reports[old(self)@.reports.len() as int] == error@,
                },
            decreases statements.len() - i,
        {
            let budget = self.budget;
            let ghost start = self@;
            let ghost meant = exec(start, statements[i as int], budget as nat);
            let failure = match self.execute(unit, &statements[i], budget) {
                Ok(Completion::Normal) => None,
                Ok(Completion::Return(keyword, _)) => Some(
                    runtime_error(&keyword, "Cannot return from top-level code."),
                ),
                Err(error) => Some(error),
            };
            let ghost ran = self@;
            match failure {
                Some(error) => {
                    let ghost before = self.reports@;
                    self.reports.push(error.clone());
                    proof {
                        assert(errors_of(self.reports@) =~= errors_of(before).push(error@));
                        assert(self@ == (State { reports: ran.reports.push(error@), ..ran }));
                        if !(goal is None) {
                            assert(!(meant.1 is Outside));
                            assert(run(start, *statements, i as nat, budget as nat)
                                == after_failure(ran, error@, *statements, i as nat, budget as nat));
                        }
                    }
                    if first.is_none() {
                        first = Some(error);
                    }
                    if self.environment.is_repl(self.current) {
                        break ;
                    }
                },
                None => {},
            }
            i = i + 1;
        }
        match first {
            Some(error) => Err(error),
            None => Ok(()),
        }
    }

    /// Writes what a resolver found into the table of distances.
    pub fn load(&mut self, found: &Vec<(usize, usize)>)
        ensures
            final(self)@ == resolved_state(old(self)@, found@),
            final(self).spec_budget() == old(self).spec_budget(),
    {
        let mut i: usize = 0;
        while i < found.len()
            invariant
                i <= found.len(),
                self.budget == old(self).budget,
                self@ == (State { locals: self@.locals, ..old(self)@ }),
                merged(self@.locals, found@, i as nat) == merged(old(self)@.locals, found@, 0),
            decreases found.len() - i,
        {
            self.resolve(found[i].0, found[i].1);
            i = i + 1;
        }
    }

    /// Resolves a program, then runs it. A program that the resolver
    /// refuses is not run at all: the error is returned and the state is
    /// as it was. Else what the resolver found is written into the table
    /// of distances and the program runs as [`Interpreter::interpret`]
    /// says.
    pub fn resolve_and_run<F: FloatUnit>(&mut self, unit: &F, statements: &Vec<Stmt>) -> (result:
        Result<(), Error>)
        requires
            valid(old(self)@),
        ensures
            lasting(old(self)@, final(self)@),
            final(self).spec_budget() == old(self).spec_budget(),
            match resolve_stmts(fresh(), *statements, 0) {
                Err(refused) => result matches Err(got) && got@ == refused.error && final(self)@
                    == old(self)@,
                Ok(r) => {
                    &&& match run(
                        resolved_state(old(self)@, r.resolved),
                        *statements,
                        0,
                        old(self).spec_budget() as nat,
                    ) {
                        Some(s) => final(self)@ == s,
                        None => true,
                    }
                    &&& first_report(old(self)@.reports, final(self)@.reports, result)
                },
            },
    {
        let mut resolver = Resolver::new();
        match resolver.resolve_statements(statements) {
            Ok(_) => {},
            Err(error) => {
                return Err(error);
            },
        }
        self.load(resolver.resolved());
        self.interpret(unit, statements)
    }
}

/// The table of distances after the entries from `from` on are written
/// into it in turn.
pub open spec fn merged(locals: Map<usize, usize>, entries: Seq<(usize, usize)>, from: nat) -> Map<
    usize,
    usize,
>
    decreases entries.len() - from,
{
    if from >= entries.len() {
        locals
    } else {
        merged(
            locals.insert(entries[from as int].0, entries[from as int].1),
            entries,
            from + 1,
        )
    }
}

/// The state after what the resolver found is written into the table of
/// distances.
pub open spec fn resolved_state(s: State, entries: Seq<(usize, usize)>) -> State {
    State { locals: merged(s.locals, entries, 0), ..s }
}

} // verus!
