//! The resolver: a pass over the tree that finds, for every use of a
//! variable, how many scopes out of the use its binding lies, and that
//! refuses the programs that break a rule on scopes.

use vstd::prelude::*;
use vstd::string::*;
use std::rc::Rc;
use crate::callable::FunctionType;
use crate::error::{resolve_error, static_error, texts, token_reports, Error, ErrorView};
use crate::expr::Expr;
use crate::lox_class::ClassType;
use crate::name_map::NameMap;
use crate::stmt::{FunctionDecl, Stmt};
use crate::token::{Literal, Token};

verus! {

/// The state of a resolver.
pub struct Resolution {
    /// The scopes that enclose the place the resolver is at, outermost
    /// first, without the global scope. Each maps the names declared in
    /// it to whether their initialiser is done.
    pub scopes: Seq<Map<Seq<char>, bool>>,
    /// The kind of function body the resolver is in.
    pub current_function: FunctionType,
    /// Whether the resolver is in a class body.
    pub current_class: ClassType,
    /// What was found so far: the identifier of an expression, and how
    /// many scopes out of it its name is bound.
    pub resolved: Seq<(usize, usize)>,
    /// The lines reported so far.
    pub reports: Seq<Seq<char>>,
}

/// A refusal: the error, and the state that the resolver is left in.
pub struct Refused {
    pub error: ErrorView,
    pub state: Resolution,
}

/// A resolve error at `token`.
pub open spec fn refusal(token: Token, message: Seq<char>) -> ErrorView {
    ErrorView::ResolveError(token, message)
}

/// The refusal at `token` that leaves the resolver as it is: nothing more
/// is noted, found or reported.
pub open spec fn refused(r: Resolution, token: Token, message: Seq<char>) -> Refused {
    Refused { error: refusal(token, message), state: r }
}

/// The refusal of a read of a variable in its own initialiser: nothing is
/// found for the read, and the refusal is reported.
pub open spec fn refused_read(r: Resolution, name: Token) -> Refused {
    Refused {
        error: refusal(name, "Cannot read local variable in its own initializer."@),
        state: Resolution {
            reports: r.reports + token_reports(
                name,
                "Cannot read local variable in its own initializer."@,
            ),
            ..r
        },
    }
}

/// The state in a new innermost scope.
pub open spec fn begin_scope(r: Resolution) -> Resolution {
    Resolution { scopes: r.scopes.push(Map::empty()), ..r }
}

/// The state after the innermost scope is left.
pub open spec fn end_scope(r: Resolution) -> Resolution {
    if r.scopes.len() > 0 {
        Resolution { scopes: r.scopes.drop_last(), ..r }
    } else {
        r
    }
}

/// The state after the innermost scope notes `name` with the given mark.
pub open spec fn note(r: Resolution, name: Seq<char>, ready: bool) -> Resolution {
    if r.scopes.len() > 0 {
        Resolution {
            scopes: r.scopes.update(r.scopes.len() - 1, r.scopes.last().insert(name, ready)),
            ..r
        }
    } else {
        r
    }
}

/// A declaration: the innermost scope notes the name as not yet ready. A
/// name that the scope holds already is refused. In the global scope
/// nothing is noted and nothing refused.
pub open spec fn declare(r: Resolution, name: Token) -> Result<Resolution, Refused> {
    if r.scopes.len() > 0 && r.scopes.last().contains_key(name.lexeme@) {
        Err(refused(r, name, "Variable with this name already declared in this scope."@))
    } else {
        Ok(note(r, name.lexeme@, false))
    }
}

/// A definition: the innermost scope notes the name as ready.
pub open spec fn define(r: Resolution, name: Token) -> Resolution {
    note(r, name.lexeme@, true)
}

/// How many scopes out of the innermost one `name` is noted; `None` where
/// no scope notes it.
pub open spec fn depth(scopes: Seq<Map<Seq<char>, bool>>, name: Seq<char>) -> Option<nat>
    decreases scopes.len(),
{
    if scopes.len() == 0 {
        None
    } else if scopes.last().contains_key(name) {
        Some(0)
    } else {
        match depth(scopes.drop_last(), name) {
            Some(d) => Some(d + 1),
            None => None,
        }
    }
}

/// The state after the use `id` of `name` is resolved: where a scope
/// notes the name, the distance to the nearest such scope is recorded;
/// where none does, nothing is, and the name is taken for a global one.
pub open spec fn resolve_local(r: Resolution, id: usize, name: Seq<char>) -> Resolution {
    match depth(r.scopes, name) {
        Some(d) => Resolution { resolved: r.resolved.push((id, d as usize)), ..r },
        None => r,
    }
}

/// Whether an expression is the literal nil.
pub open spec fn is_nil(e: Expr) -> bool {
    e matches Expr::Literal { value: Literal::Nil }
}

/// The state after an expression is resolved, or the error that refuses
/// it.
pub open spec fn resolve_expr(r: Resolution, e: Expr) -> Result<Resolution, Refused>
    decreases e,
{
    match e {
        Expr::Literal { value } => Ok(r),
        Expr::Grouping { expression } => resolve_expr(r, *expression),
        Expr::Unary { operator, right } => resolve_expr(r, *right),
        Expr::Binary { left, operator, right } => match resolve_expr(r, *left) {
            Ok(r1) => resolve_expr(r1, *right),
            Err(error) => Err(error),
        },
        Expr::Logical { left, operator, right } => match resolve_expr(r, *left) {
            Ok(r1) => resolve_expr(r1, *right),
            Err(error) => Err(error),
        },
        Expr::Variable { name, id } => if r.scopes.len() > 0 && r.scopes.last().contains_key(
            name.lexeme@,
        ) && !r.scopes.last()[name.lexeme@] {
            Err(refused_read(r, name))
        } else {
            Ok(resolve_local(r, id, name.lexeme@))
        },
        Expr::Assign { name, value, id } => match resolve_expr(r, *value) {
            Ok(r1) => Ok(resolve_local(r1, id, name.lexeme@)),
            Err(error) => Err(error),
        },
        Expr::Call { callee, paren, arguments } => match resolve_expr(r, *callee) {
            Ok(r1) => resolve_exprs(r1, arguments, 0),
            Err(error) => Err(error),
        },
        Expr::Get { object, name } => resolve_expr(r, *object),
        Expr::SetField { object, name, value } => match resolve_expr(r, *value) {
            Ok(r1) => resolve_expr(r1, *object),
            Err(error) => Err(error),
        },
        Expr::This { keyword, id } => if r.current_class == ClassType::Outside {
            Err(refused(r, keyword, "Cannot use 'this' outside of a class."@))
        } else {
            Ok(resolve_local(r, id, keyword.lexeme@))
        },
    }
}

/// The state after the expressions from `from` on are resolved in turn.
pub open spec fn resolve_exprs(r: Resolution, list: Vec<Expr>, from: nat) -> Result<
    Resolution,
    Refused,
>
    decreases list, list.len() - from,
{
    if from >= list.len() {
        Ok(r)
    } else {
        match resolve_expr(r, list[from as int]) {
            Ok(r1) => resolve_exprs(r1, list, from + 1),
            Err(error) => Err(error),
        }
    }
}

/// The state after the parameters from `from` on are declared and defined
/// in turn.
pub open spec fn resolve_params(r: Resolution, params: Seq<Token>, from: nat) -> Result<
    Resolution,
    Refused,
>
    decreases params.len() - from,
{
    if from >= params.len() {
        Ok(r)
    } else {
        match declare(r, params[from as int]) {
            Ok(r1) => resolve_params(define(r1, params[from as int]), params, from + 1),
            Err(error) => Err(error),
        }
    }
}

/// The state after a statement is resolved, or the error that refuses it.
pub open spec fn resolve_stmt(r: Resolution, s: Stmt) -> Result<Resolution, Refused>
    decreases s,
{
    match s {
        Stmt::Expression { expression } => resolve_expr(r, expression),
        Stmt::Print { expression } => resolve_expr(r, expression),
        Stmt::Var { name, initializer } => match declare(r, name) {
            Ok(r1) => match resolve_expr(r1, initializer) {
                Ok(r2) => Ok(define(r2, name)),
                Err(error) => Err(error),
            },
            Err(error) => Err(error),
        },
        Stmt::Block { statements } => match resolve_stmts(begin_scope(r), statements, 0) {
            Ok(r1) => Ok(end_scope(r1)),
            Err(error) => Err(error),
        },
        Stmt::Function { declaration } => match declare(r, declaration.name) {
            Ok(r1) => resolve_function(
                define(r1, declaration.name),
                *declaration,
                FunctionType::Function,
            ),
            Err(error) => Err(error),
        },
        Stmt::Class { name, superclass, methods } => match declare(
            Resolution { current_class: ClassType::Class, ..r },
            name,
        ) {
            Ok(r1) => {
                let heritage = match superclass {
                    Some(parent) => resolve_expr(define(r1, name), parent),
                    None => Ok(define(r1, name)),
                };
                match heritage {
                    Ok(r2) => match resolve_methods(
                        note(begin_scope(r2), "this"@, true),
                        methods,
                        0,
                    ) {
                        Ok(r3) => Ok(
                            Resolution { current_class: r.current_class, ..end_scope(r3) },
                        ),
                        Err(error) => Err(error),
                    },
                    Err(error) => Err(error),
                }
            },
            Err(error) => Err(error),
        },
        Stmt::If { condition, then_branch, else_branch } => match resolve_expr(r, condition) {
            Ok(r1) => match resolve_stmt(r1, *then_branch) {
                Ok(r2) => match else_branch {
                    Some(other) => resolve_stmt(r2, *other),
                    None => Ok(r2),
                },
                Err(error) => Err(error),
            },
            Err(error) => Err(error),
        },
        Stmt::While { condition, body } => match resolve_expr(r, condition) {
            Ok(r1) => resolve_stmt(r1, *body),
            Err(error) => Err(error),
        },
        Stmt::Return { keyword, value } => if r.current_function == FunctionType::Outside {
            Err(refused(r, keyword, "Cannot return from top-level code."@))
        } else if is_nil(value) {
            Ok(r)
        } else if r.current_function == FunctionType::Initializer {
            Err(refused(r, keyword, "Cannot return a value from an initializer."@))
        } else {
            resolve_expr(r, value)
        },
    }
}

/// The state after the statements from `from` on are resolved in turn.
pub open spec fn resolve_stmts(r: Resolution, list: Vec<Stmt>, from: nat) -> Result<
    Resolution,
    Refused,
>
    decreases list, list.len() - from,
{
    if from >= list.len() {
        Ok(r)
    } else {
        match resolve_stmt(r, list[from as int]) {
            Ok(r1) => resolve_stmts(r1, list, from + 1),
            Err(error) => Err(error),
        }
    }
}

/// The state after a function is resolved as one of the given kind: in a
/// new scope its parameters are declared and defined and its body
/// resolved; the kind of function that was current before is current
/// again after.
pub open spec fn resolve_function(r: Resolution, declaration: FunctionDecl, kind: FunctionType) -> Result<
    Resolution,
    Refused,
>
    decreases declaration,
{
    match resolve_params(
        begin_scope(Resolution { current_function: kind, ..r }),
        declaration.params@,
        0,
    ) {
        Ok(r1) => match resolve_stmts(r1, declaration.body, 0) {
            Ok(r2) => Ok(Resolution { current_function: r.current_function, ..end_scope(r2) }),
            Err(error) => Err(error),
        },
        Err(error) => Err(error),
    }
}

/// The kind of function that a method of the given name is.
pub open spec fn method_kind(name: Seq<char>) -> FunctionType {
    if name == "init"@ {
        FunctionType::Initializer
    } else {
        FunctionType::Method
    }
}

/// The state after the methods from `from` on are resolved in turn.
pub open spec fn resolve_methods(r: Resolution, list: Vec<Rc<FunctionDecl>>, from: nat) -> Result<
    Resolution,
    Refused,
>
    decreases list, list.len() - from,
{
    if from >= list.len() {
        Ok(r)
    } else {
        match resolve_function(
            r,
            *list[from as int],
            method_kind(list[from as int].name.lexeme@),
        ) {
            Ok(r1) => resolve_methods(r1, list, from + 1),
            Err(error) => Err(error),
        }
    }
}

/// The state that a resolver starts in: at the top of a program, outside
/// every function and class, with nothing found.
pub open spec fn fresh() -> Resolution {
    Resolution {
        scopes: Seq::empty(),
        current_function: FunctionType::Outside,
        current_class: ClassType::Outside,
        resolved: Seq::empty(),
        reports: Seq::empty(),
    }
}

/// The result and the state of a pass are those that were meant: after a
/// refusal too, the resolver is in the state that the refusal names.
pub open spec fn settles(
    result: Result<(), Error>,
    after: Resolution,
    meant: Result<Resolution, Refused>,
) -> bool {
    match meant {
        Ok(r) => result is Ok && after == r,
        Err(refused) => result matches Err(got) && got@ == refused.error && after
            == refused.state,
    }
}

/// What a list of scope tables stands for.
pub open spec fn scopes_of(tables: Seq<NameMap<bool>>) -> Seq<Map<Seq<char>, bool>> {
    tables.map_values(|table: NameMap<bool>| table@)
}

/// A distance found further out is one more than it is from there.
pub open spec fn further(found: Option<nat>, by: nat) -> Option<nat> {
    match found {
        Some(d) => Some(d + by),
        None => None,
    }
}

/// The resolver.
pub struct Resolver {
    scopes: Vec<NameMap<bool>>,
    current_function: FunctionType,
    current_class: ClassType,
    resolved: Vec<(usize, usize)>,
    reports: Vec<String>,
}

impl View for Resolver {
    type V = Resolution;

    closed spec fn view(&self) -> Resolution {
        Resolution {
            scopes: scopes_of(self.scopes@),
            current_function: self.current_function,
            current_class: self.current_class,
            resolved: self.resolved@,
            reports: texts(self.reports@),
        }
    }
}

impl Resolver {
    /// A resolver at the top of a program.
    pub fn new() -> (resolver: Resolver)
        ensures
            resolver@ == fresh(),
    {
        let resolver = Resolver {
            scopes: Vec::new(),
            current_function: FunctionType::Outside,
            current_class: ClassType::Outside,
            resolved: Vec::new(),
            reports: Vec::new(),
        };
        assert(resolver@.scopes =~= Seq::empty());
        assert(resolver@.reports =~= Seq::empty());
        resolver
    }

    /// What was found: the identifier of each resolved expression with the
    /// distance of its binding, in the order of the pass.
    pub fn resolved(&self) -> (found: &Vec<(usize, usize)>)
        ensures
            found@ == self@.resolved,
    {
        &self.resolved
    }

    /// The lines reported: those of each read of a variable in its own
    /// initialiser that was refused.
    pub fn reports(&self) -> (lines: &Vec<String>)
        ensures
            texts(lines@) == self@.reports,
    {
        &self.reports
    }

    /// Resolves the statements of a program in turn. The first refusal
    /// ends the pass; what was found before it stays found.
    pub fn resolve_statements(&mut self, statements: &Vec<Stmt>) -> (result: Result<(), Error>)
        ensures
            settles(result, final(self)@, resolve_stmts(old(self)@, *statements, 0)),
        decreases statements,
    {
        let mut i: usize = 0;
        while i < statements.len()
            invariant
                i <= statements.len(),
                resolve_stmts(self@, *statements, i as nat) == resolve_stmts(
                    old(self)@,
                    *statements,
                    0,
                ),
            decreases statements.len() - i,
        {
            self.resolve_statement(&statements[i])?;
            i = i + 1;
        }
        Ok(())
    }

    /// Resolves one statement.
    #[verifier::loop_isolation(false)]
    fn resolve_statement(&mut self, statement: &Stmt) -> (result: Result<(), Error>)
        ensures
            settles(result, final(self)@, resolve_stmt(old(self)@, *statement)),
        decreases statement,
    {
        match statement {
            Stmt::Expression { expression } => self.resolve_expr(expression),
            Stmt::Print { expression } => self.resolve_expr(expression),
            Stmt::Var { name, initializer } => {
                self.declare(name)?;
                self.resolve_expr(initializer)?;
                self.define(name);
                Ok(())
            },
            Stmt::Block { statements } => {
                self.begin_scope();
                self.resolve_statements(statements)?;
                self.end_scope();
                Ok(())
            },
            Stmt::Function { declaration } => {
                self.declare(&declaration.name)?;
                self.define(&declaration.name);
                self.resolve_function(declaration, FunctionType::Function)
            },
            Stmt::Class { name, superclass, methods } => {
                let enclosing_class = self.current_class;
                self.current_class = ClassType::Class;
                self.declare(name)?;
                self.define(name);
                match superclass {
                    Some(parent) => {
                        self.resolve_expr(parent)?;
                    },
                    None => {},
                }
                self.begin_scope();
                self.note(String::from_str("this"), true);
                let ghost entered = self@;
                let init = String::from_str("init");
                let mut i: usize = 0;
                while i < methods.len()
                    invariant
                        i <= methods.len(),
                        init@ == "init"@,
                        resolve_methods(self@, *methods, i as nat) == resolve_methods(
                            entered,
                            *methods,
                            0,
                        ),
                    decreases methods.len() - i,
                {
                    let kind = if methods[i].name.lexeme == init {
                        FunctionType::Initializer
                    } else {
                        FunctionType::Method
                    };
                    self.resolve_function(&methods[i], kind)?;
                    i = i + 1;
                }
                self.end_scope();
                self.current_class = enclosing_class;
                Ok(())
            },
            Stmt::If { condition, then_branch, else_branch } => {
                self.resolve_expr(condition)?;
                self.resolve_statement(then_branch)?;
                match else_branch {
                    Some(other) => self.resolve_statement(other),
                    None => Ok(()),
                }
            },
            Stmt::While { condition, body } => {
                self.resolve_expr(condition)?;
                self.resolve_statement(body)
            },
            Stmt::Return { keyword, value } => {
                if self.current_function == FunctionType::Outside {
                    return Err(static_error(keyword, "Cannot return from top-level code."));
                }
                match value {
                    Expr::Literal { value: Literal::Nil } => {
                        return Ok(());
                    },
                    _ => {},
                }
                if self.current_function == FunctionType::Initializer {
                    return Err(
                        static_error(keyword, "Cannot return a value from an initializer."),
                    );
                }
                self.resolve_expr(value)
            },
        }
    }

    /// Resolves one expression.
    #[verifier::loop_isolation(false)]
    fn resolve_expr(&mut self, expr: &Expr) -> (result: Result<(), Error>)
        ensures
            settles(result, final(self)@, resolve_expr(old(self)@, *expr)),
        decreases expr,
    {
        match expr {
            Expr::Literal { value } => Ok(()),
            Expr::Grouping { expression } => self.resolve_expr(expression),
            Expr::Unary { operator, right } => self.resolve_expr(right),
            Expr::Binary { left, operator, right } => {
                self.resolve_expr(left)?;
                self.resolve_expr(right)
            },
            Expr::Logical { left, operator, right } => {
                self.resolve_expr(left)?;
                self.resolve_expr(right)
            },
            Expr::Variable { name, id } => self.visit_variable(name, *id),
            Expr::Assign { name, value, id } => {
                self.resolve_expr(value)?;
                self.resolve_local(*id, &name.lexeme);
                Ok(())
            },
            Expr::Call { callee, paren, arguments } => {
                self.resolve_expr(callee)?;
                let ghost entered = self@;
                let mut i: usize = 0;
                while i < arguments.len()
                    invariant
                        i <= arguments.len(),
                        resolve_exprs(self@, *arguments, i as nat) == resolve_exprs(
                            entered,
                            *arguments,
                            0,
                        ),
                    decreases arguments.len() - i,
                {
                    self.resolve_expr(&arguments[i])?;
                    i = i + 1;
                }
                Ok(())
            },
            Expr::Get { object, name } => self.resolve_expr(object),
            Expr::SetField { object, name, value } => {
                self.resolve_expr(value)?;
                self.resolve_expr(object)
            },
            Expr::This { keyword, id } => self.visit_this(keyword, *id),
        }
    }

    /// Resolves a function of the given kind.
    #[verifier::loop_isolation(false)]
    fn resolve_function(&mut self, declaration: &FunctionDecl, kind: FunctionType) -> (result: Result<
        (),
        Error,
    >)
        ensures
            settles(result, final(self)@, resolve_function(old(self)@, *declaration, kind)),
        decreases declaration,
    {
        let enclosing_function = self.current_function;
        self.current_function = kind;
        self.begin_scope();
        let ghost entered = self@;
        let mut i: usize = 0;
        while i < declaration.params.len()
            invariant
                i <= declaration.params.len(),
                resolve_params(self@, declaration.params@, i as nat) == resolve_params(
                    entered,
                    declaration.params@,
                    0,
                ),
            decreases declaration.params.len() - i,
        {
            self.declare(&declaration.params[i])?;
            self.define(&declaration.params[i]);
            i = i + 1;
        }
        self.resolve_statements(&declaration.body)?;
        self.end_scope();
        self.current_function = enclosing_function;
        Ok(())
    }

    /// Resolves a use of a variable: a variable may not be read in its own
    /// initialiser.
    fn visit_variable(&mut self, name: &Token, id: usize) -> (result: Result<(), Error>)
        ensures
            settles(
                result,
                final(self)@,
                resolve_expr(old(self)@, Expr::Variable { name: *name, id }),
            ),
    {
        let count = self.scopes.len();
        if count > 0 {
            match self.scopes[count - 1].get(&name.lexeme) {
                Some(ready) => {
                    if !*ready {
                        let message = "Cannot read local variable in its own initializer.";
                        let mut lines = resolve_error(name, message);
                        let ghost before = self.reports@;
                        let ghost added = lines@;
                        self.reports.append(&mut lines);
                        assert(texts(self.reports@) =~= texts(before) + texts(added));
                        return Err(static_error(name, message));
                    }
                },
                None => {},
            }
        }
        self.resolve_local(id, &name.lexeme);
        Ok(())
    }

    /// Resolves a use of `this`, which only a class body may hold.
    fn visit_this(&mut self, keyword: &Token, id: usize) -> (result: Result<(), Error>)
        ensures
            settles(
                result,
                final(self)@,
                resolve_expr(old(self)@, Expr::This { keyword: *keyword, id }),
            ),
    {
        if self.current_class == ClassType::Outside {
            return Err(static_error(keyword, "Cannot use 'this' outside of a class."));
        }
        self.resolve_local(id, &keyword.lexeme);
        Ok(())
    }

    /// Records for the use `id` of `name` the distance to the nearest scope
    /// that notes the name, if one does.
    fn resolve_local(&mut self, id: usize, name: &String)
        ensures
            final(self)@ == resolve_local(old(self)@, id, name@),
    {
        let count = self.scopes.len();
        let mut passed: usize = 0;
        assert(self@.scopes.take(count as int) =~= self@.scopes);
        while passed < count
            invariant
                passed <= count,
                count == self.scopes@.len(),
                *self == *old(self),
                depth(self@.scopes, name@) == further(
                    depth(self@.scopes.take(count - passed), name@),
                    passed as nat,
                ),
            decreases count - passed,
        {
            let at = count - 1 - passed;
            let ghost upto = self@.scopes.take(count - passed);
            assert(upto.last() == self.scopes@[at as int]@);
            assert(upto.drop_last() =~= self@.scopes.take(count - passed - 1));
            if self.scopes[at].contains_key(name) {
                self.resolved.push((id, passed));
                return ;
            }
            passed = passed + 1;
        }
        assert(self@.scopes.take(0).len() == 0);
    }

    /// A declaration: the innermost scope notes the name as not yet ready.
    fn declare(&mut self, name: &Token) -> (result: Result<(), Error>)
        ensures
            settles(result, final(self)@, declare(old(self)@, *name)),
    {
        let count = self.scopes.len();
        if count > 0 && self.scopes[count - 1].contains_key(&name.lexeme) {
            return Err(
                static_error(name, "Variable with this name already declared in this scope."),
            );
        }
        self.note(name.lexeme.clone(), false);
        Ok(())
    }

    /// A definition: the innermost scope notes the name as ready.
    fn define(&mut self, name: &Token)
        ensures
            final(self)@ == define(old(self)@, *name),
    {
        self.note(name.lexeme.clone(), true);
    }

    /// Notes a name in the innermost scope.
    fn note(&mut self, name: String, ready: bool)
        ensures
            final(self)@ == note(old(self)@, name@, ready),
    {
        match self.scopes.pop() {
            Some(scope) => {
                let mut scope = scope;
                scope.insert(name, ready);
                self.scopes.push(scope);
                assert(scopes_of(self.scopes@) =~= note(old(self)@, name@, ready).scopes);
            },
            None => {},
        }
    }

    /// Enters a new innermost scope.
    pub fn begin_scope(&mut self)
        ensures
            final(self)@ == begin_scope(old(self)@),
    {
        self.scopes.push(NameMap::new());
        assert(scopes_of(self.scopes@) =~= begin_scope(old(self)@).scopes);
    }

    /// Leaves the innermost scope.
    pub fn end_scope(&mut self)
        ensures
            final(self)@ == end_scope(old(self)@),
    {
        let _ = self.scopes.pop();
        assert(scopes_of(self.scopes@) =~= end_scope(old(self)@).scopes);
    }
}

} // verus!
