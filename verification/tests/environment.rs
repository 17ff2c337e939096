use lox_rust::callable::{Clock, LoxCallable, LoxFunction};
use lox_rust::environment::Environment;
use lox_rust::error::{parser_error, resolve_error, runtime_error, static_error, Error};
use lox_rust::lox_class::LoxClass;
use lox_rust::lox_instance::LoxInstance;
use lox_rust::name_map::NameMap;
use lox_rust::object::Object;
use lox_rust::stmt::FunctionDecl;
use lox_rust::token::{Literal, Token};
use lox_rust::token_type::TokenType;
use std::rc::Rc;

fn name(text: &str) -> Token {
    Token::new(TokenType::Identifier, String::from(text), Literal::Nil, 7)
}

fn whole(i: isize) -> Object {
    Object::Literal(Literal::Isize(i))
}

fn as_int(object: &Object) -> isize {
    match object {
        Object::Literal(Literal::Isize(i)) => *i,
        _ => panic!("no integer"),
    }
}

fn message_of(error: Error) -> String {
    match error {
        Error::RuntimeError(token, message) => {
            assert_eq!(token.line, 7);
            message
        }
        other => panic!("{:?}", other),
    }
}

fn function(text: &str, params: &[&str], closure: usize) -> LoxFunction {
    LoxFunction::new(
        Rc::new(FunctionDecl {
            name: name(text),
            params: params.iter().map(|p| name(p)).collect(),
            body: Vec::new(),
        }),
        closure,
    )
}

#[test]
fn token_new_keeps_its_parts() {
    let token = Token::new(TokenType::Number, String::from("12"), Literal::Isize(12), 3);
    assert_eq!(token.token_type, TokenType::Number);
    assert_eq!(token.lexeme, "12");
    assert!(matches!(token.literal, Literal::Isize(12)));
    assert_eq!(token.line, 3);
    let copy = token.clone();
    assert_eq!(copy.lexeme, "12");
    assert_eq!(copy.line, 3);
}

#[test]
fn name_map_binds_and_rebinds() {
    let mut table: NameMap<bool> = NameMap::new();
    assert_eq!(table.len(), 0);
    assert!(!table.contains_key(&String::from("a")));
    assert!(table.get(&String::from("a")).is_none());
    table.insert(String::from("a"), false);
    table.insert(String::from("b"), true);
    assert_eq!(table.len(), 2);
    assert_eq!(table.get(&String::from("a")), Some(&false));
    assert_eq!(table.get(&String::from("b")), Some(&true));
    table.insert(String::from("a"), true);
    assert_eq!(table.len(), 2);
    assert_eq!(table.get(&String::from("a")), Some(&true));
    assert_eq!(table.get(&String::from("b")), Some(&true));
    assert!(table.contains_key(&String::from("b")));
    assert!(!table.contains_key(&String::from("c")));
    assert!(!table.contains_key(&String::from("")));
}

#[test]
fn a_new_environment_is_one_empty_global_scope() {
    let environment = Environment::new(false);
    assert_eq!(environment.len(), 1);
    assert!(!environment.is_repl(0));
    assert!(environment.get(0, &name("a")).is_err());
    assert!(Environment::new(true).is_repl(0));
    assert!(!Environment::new(true).is_repl(1));
}

#[test]
fn define_binds_in_the_addressed_scope_only() {
    let mut environment = Environment::new(false);
    let inner = environment.nest(0).unwrap();
    let other = environment.nest(0).unwrap();
    environment.define(inner, String::from("a"), &whole(1));
    assert_eq!(as_int(&environment.get(inner, &name("a")).unwrap()), 1);
    assert!(environment.get(0, &name("a")).is_err());
    assert!(environment.get(other, &name("a")).is_err());
    environment.define(inner, String::from("a"), &whole(2));
    assert_eq!(as_int(&environment.get(inner, &name("a")).unwrap()), 2);
    environment.define(99, String::from("a"), &whole(3));
    assert_eq!(environment.len(), 3);
    assert!(environment.get(0, &name("a")).is_err());
}

#[test]
fn get_looks_from_the_scope_outward() {
    let mut environment = Environment::new(false);
    environment.define(0, String::from("a"), &whole(1));
    environment.define(0, String::from("b"), &whole(10));
    let middle = environment.nest(0).unwrap();
    environment.define(middle, String::from("a"), &whole(2));
    let inner = environment.nest(middle).unwrap();
    assert_eq!(as_int(&environment.get(inner, &name("a")).unwrap()), 2);
    assert_eq!(as_int(&environment.get(middle, &name("a")).unwrap()), 2);
    assert_eq!(as_int(&environment.get(0, &name("a")).unwrap()), 1);
    assert_eq!(as_int(&environment.get(inner, &name("b")).unwrap()), 10);
    assert_eq!(
        message_of(environment.get(inner, &name("c")).err().unwrap()),
        "Undefined variable 'c'."
    );
    assert_eq!(
        message_of(environment.get(42, &name("a")).err().unwrap()),
        "Undefined variable 'a'."
    );
    assert_eq!(environment.find(inner, &String::from("a")), Some(middle));
    assert_eq!(environment.find(inner, &String::from("b")), Some(0));
    assert_eq!(environment.find(inner, &String::from("c")), None);
}

#[test]
fn nest_makes_a_scope_inside_another() {
    let mut environment = Environment::new(true);
    assert_eq!(environment.nest(0), Some(1));
    assert_eq!(environment.nest(1), Some(2));
    assert_eq!(environment.nest(0), Some(3));
    assert_eq!(environment.nest(4), None);
    assert_eq!(environment.len(), 4);
    assert!(environment.is_repl(3));
    assert_eq!(environment.ancestor(2, 0), Some(2));
    assert_eq!(environment.ancestor(2, 1), Some(1));
    assert_eq!(environment.ancestor(2, 2), Some(0));
    assert_eq!(environment.ancestor(2, 3), None);
    assert_eq!(environment.ancestor(3, 1), Some(0));
    assert_eq!(environment.ancestor(9, 0), None);
}

#[test]
fn get_at_reads_exactly_the_scope_at_the_distance() {
    let mut environment = Environment::new(false);
    environment.define(0, String::from("a"), &whole(1));
    let middle = environment.nest(0).unwrap();
    environment.define(middle, String::from("a"), &whole(2));
    let inner = environment.nest(middle).unwrap();
    environment.define(inner, String::from("a"), &whole(3));
    let a = String::from("a");
    assert_eq!(as_int(&environment.get_at(inner, 0, &a)), 3);
    assert_eq!(as_int(&environment.get_at(inner, 1, &a)), 2);
    assert_eq!(as_int(&environment.get_at(inner, 2, &a)), 1);
    assert_eq!(as_int(&environment.get_at(middle, 1, &a)), 1);
    assert!(environment.find_at(inner, 3, &a).is_none());
    assert!(environment.find_at(inner, 0, &String::from("b")).is_none());
    environment.define(0, String::from("g"), &whole(9));
    assert!(environment.find_at(inner, 1, &String::from("g")).is_none());
    assert_eq!(as_int(&environment.find_at(inner, 2, &String::from("g")).unwrap()), 9);
}

#[test]
fn assign_overwrites_the_nearest_binding_and_makes_none() {
    let mut environment = Environment::new(false);
    environment.define(0, String::from("a"), &whole(1));
    let middle = environment.nest(0).unwrap();
    let inner = environment.nest(middle).unwrap();
    assert!(environment.assign(inner, &name("a"), &whole(5)).is_ok());
    assert_eq!(as_int(&environment.get(0, &name("a")).unwrap()), 5);
    assert!(environment.find_at(inner, 0, &String::from("a")).is_none());
    environment.define(middle, String::from("a"), &whole(7));
    assert!(environment.assign(inner, &name("a"), &whole(8)).is_ok());
    assert_eq!(as_int(&environment.get(middle, &name("a")).unwrap()), 8);
    assert_eq!(as_int(&environment.get(0, &name("a")).unwrap()), 5);
    assert_eq!(
        message_of(environment.assign(inner, &name("b"), &whole(1)).err().unwrap()),
        "Undefined variable 'b'."
    );
    assert!(environment.get(inner, &name("b")).is_err());
}

#[test]
fn assign_at_writes_the_scope_at_the_distance() {
    let mut environment = Environment::new(false);
    environment.define(0, String::from("a"), &whole(1));
    let middle = environment.nest(0).unwrap();
    environment.define(middle, String::from("a"), &whole(2));
    let inner = environment.nest(middle).unwrap();
    environment.assign_at(inner, 1, &name("a"), &whole(20));
    assert_eq!(as_int(&environment.get(middle, &name("a")).unwrap()), 20);
    assert_eq!(as_int(&environment.get(0, &name("a")).unwrap()), 1);
    environment.assign_at(inner, 2, &name("a"), &whole(10));
    assert_eq!(as_int(&environment.get(0, &name("a")).unwrap()), 10);
    environment.assign_at(inner, 0, &name("fresh"), &whole(3));
    assert_eq!(as_int(&environment.get_at(inner, 0, &String::from("fresh"))), 3);
}

#[test]
fn two_scopes_inside_one_share_its_bindings() {
    let mut environment = Environment::new(false);
    let home = environment.nest(0).unwrap();
    environment.define(home, String::from("count"), &whole(0));
    let first = environment.nest(home).unwrap();
    let second = environment.nest(home).unwrap();
    assert!(environment.assign(first, &name("count"), &whole(1)).is_ok());
    assert_eq!(as_int(&environment.get(second, &name("count")).unwrap()), 1);
    assert!(environment.assign(second, &name("count"), &whole(2)).is_ok());
    assert_eq!(as_int(&environment.get(first, &name("count")).unwrap()), 2);
    assert_eq!(as_int(&environment.get(home, &name("count")).unwrap()), 2);
}

#[test]
fn shadowing_leaves_the_outer_binding_as_it_was() {
    let mut environment = Environment::new(false);
    environment.define(0, String::from("x"), &whole(1));
    let inner = environment.nest(0).unwrap();
    environment.define(inner, String::from("x"), &whole(2));
    assert_eq!(as_int(&environment.get(inner, &name("x")).unwrap()), 2);
    assert_eq!(as_int(&environment.get(0, &name("x")).unwrap()), 1);
}

#[test]
fn find_method_walks_from_the_class_to_its_ancestors() {
    let mut methods_a: NameMap<LoxFunction> = NameMap::new();
    methods_a.insert(String::from("greet"), function("greet", &[], 1));
    methods_a.insert(String::from("only_a"), function("only_a", &["x"], 1));
    let a = Rc::new(LoxClass::new(String::from("A"), None, methods_a));
    let mut methods_b: NameMap<LoxFunction> = NameMap::new();
    methods_b.insert(String::from("greet"), function("greet", &[], 2));
    let b = Rc::new(LoxClass::new(String::from("B"), Some(a.clone()), methods_b));
    let mut methods_c: NameMap<LoxFunction> = NameMap::new();
    methods_c.insert(String::from("greet"), function("greet", &[], 3));
    let c = LoxClass::new(String::from("C"), Some(b.clone()), methods_c);
    assert_eq!(c.find_method(&String::from("greet")).unwrap().closure, 3);
    assert_eq!(b.find_method(&String::from("greet")).unwrap().closure, 2);
    assert_eq!(a.find_method(&String::from("greet")).unwrap().closure, 1);
    assert_eq!(c.find_method(&String::from("only_a")).unwrap().closure, 1);
    assert!(c.find_method(&String::from("missing")).is_none());
    assert!(a.find_method(&String::from("missing")).is_none());
}

#[test]
fn the_arity_of_a_class_is_that_of_its_initialiser() {
    let mut methods: NameMap<LoxFunction> = NameMap::new();
    methods.insert(String::from("init"), function("init", &["a", "b"], 0));
    let parent = Rc::new(LoxClass::new(String::from("P"), None, methods));
    assert_eq!(LoxClass::arity(&parent), 2);
    let child = Rc::new(LoxClass::new(String::from("C"), Some(parent.clone()), NameMap::new()));
    assert_eq!(LoxClass::arity(&child), 2);
    assert_eq!(LoxCallable::arity(&child), 2);
    let plain = LoxClass::new(String::from("Q"), None, NameMap::new());
    assert_eq!(plain.arity(), 0);
    assert_eq!(function("f", &["a", "b", "c"], 0).arity(), 3);
    assert_eq!(function("f", &[], 0).arity(), 0);
    assert_eq!(LoxCallable::arity(&Clock {}), 0);
}

#[test]
fn binding_makes_a_scope_that_holds_this() {
    let mut environment = Environment::new(false);
    let home = environment.nest(0).unwrap();
    let method = function("m", &[], home);
    let bound = method.bind(4, &mut environment).unwrap();
    assert_eq!(method.closure, home);
    assert_eq!(bound.closure, 2);
    assert!(environment.is_captured(bound.closure));
    assert_eq!(bound.declaration.name.lexeme, "m");
    assert_eq!(environment.ancestor(bound.closure, 1), Some(home));
    match environment.get_at(bound.closure, 0, &String::from("this")) {
        Object::Instance(handle) => assert_eq!(handle, 4),
        _ => panic!("no instance"),
    }
    assert!(environment.find_at(home, 0, &String::from("this")).is_none());
    let lost = function("m", &[], 50);
    assert!(lost.bind(4, &mut environment).is_none());
    assert_eq!(environment.len(), 3);
}

#[test]
fn instances_start_without_fields_and_take_any() {
    let class = Rc::new(LoxClass::new(String::from("A"), None, NameMap::new()));
    let mut instance = LoxInstance::new(class);
    assert_eq!(instance.fields.len(), 0);
    instance.set(&String::from("x"), &whole(1));
    instance.set(&String::from("y"), &whole(2));
    instance.set(&String::from("x"), &whole(3));
    assert_eq!(instance.fields.len(), 2);
    assert_eq!(as_int(instance.fields.get(&String::from("x")).unwrap()), 3);
    assert_eq!(instance.class.name, "A");
}

#[test]
fn truthiness_of_objects() {
    assert!(!Object::nil().is_truthy());
    assert!(!Object::boolean(false).is_truthy());
    assert!(Object::boolean(true).is_truthy());
    assert!(whole(0).is_truthy());
    assert!(Object::Literal(Literal::String(String::new())).is_truthy());
    assert!(Object::Literal(Literal::Float(0)).is_truthy());
    assert!(Object::Clock(Clock {}).is_truthy());
    assert!(Object::Instance(0).is_truthy());
    assert!(Object::Func(function("f", &[], 0)).is_truthy());
}

#[test]
fn the_clock_reads_seconds_that_fit_an_integer() {
    let paren = name(")");
    assert_eq!(as_int(&Clock::reading(&paren, Some(0)).ok().unwrap()), 0);
    assert_eq!(as_int(&Clock::reading(&paren, Some(1700000000)).ok().unwrap()), 1700000000);
    assert_eq!(
        as_int(&Clock::reading(&paren, Some(isize::MAX as u64)).ok().unwrap()),
        isize::MAX
    );
    assert_eq!(
        message_of(Clock::reading(&paren, Some(isize::MAX as u64 + 1)).err().unwrap()),
        "Integer overflow."
    );
    assert_eq!(
        message_of(Clock::reading(&paren, None).err().unwrap()),
        "System time is before the Unix epoch."
    );
    assert!(as_int(&Clock {}.call(&paren).ok().unwrap()) > 1500000000);
}

#[test]
fn errors_carry_their_token_and_message() {
    match runtime_error(&name("a"), "broken") {
        Error::RuntimeError(token, message) => {
            assert_eq!(token.lexeme, "a");
            assert_eq!(message, "broken");
        }
        other => panic!("{:?}", other),
    }
    match static_error(&name("b"), "refused") {
        Error::ResolveError(token, message) => {
            assert_eq!(token.lexeme, "b");
            assert_eq!(message, "refused");
        }
        other => panic!("{:?}", other),
    }
    assert!(matches!(Error::Exhausted.clone(), Error::Exhausted));
    match Error::ParseError(String::from("parse error")).clone() {
        Error::ParseError(message) => assert_eq!(message, "parse error"),
        other => panic!("{:?}", other),
    }
}

#[test]
fn reports_at_a_token() {
    assert_eq!(parser_error(&name("a"), "bad"), vec!["[line 7] Error : bad"]);
    assert_eq!(resolve_error(&name("a"), "bad"), vec!["[line 7] Error : bad"]);
    let end = Token::new(TokenType::EOF, String::new(), Literal::Nil, 2);
    assert_eq!(
        parser_error(&end, "bad"),
        vec!["[line 2] Error  at end: bad", "[line 2] Error : bad"]
    );
    assert_eq!(
        resolve_error(&end, "bad"),
        vec!["[line 2] Error  at end: bad", "[line 2] Error : bad"]
    );
}

#[test]
fn a_property_is_a_field_first_and_then_a_bound_method() {
    let mut environment = Environment::new(false);
    let mut methods: NameMap<LoxFunction> = NameMap::new();
    methods.insert(String::from("m"), function("m", &[], 0));
    methods.insert(String::from("both"), function("both", &[], 0));
    let parent = Rc::new(LoxClass::new(String::from("P"), None, methods));
    let class = Rc::new(LoxClass::new(String::from("C"), Some(parent), NameMap::new()));
    let mut instance = LoxInstance::new(class);
    instance.set(&String::from("x"), &whole(5));
    instance.set(&String::from("both"), &whole(6));
    assert_eq!(as_int(&instance.get(&name("x"), 3, &mut environment).ok().unwrap()), 5);
    assert_eq!(as_int(&instance.get(&name("both"), 3, &mut environment).ok().unwrap()), 6);
    assert_eq!(environment.len(), 1);
    match instance.get(&name("m"), 3, &mut environment) {
        Ok(Object::Func(method)) => {
            assert_eq!(method.closure, 1);
            assert_eq!(method.declaration.name.lexeme, "m");
        }
        _ => panic!("no method"),
    }
    assert_eq!(environment.len(), 2);
    match environment.get_at(1, 0, &String::from("this")) {
        Object::Instance(handle) => assert_eq!(handle, 3),
        _ => panic!("no instance"),
    }
    assert_eq!(
        message_of(instance.get(&name("missing"), 3, &mut environment).err().unwrap()),
        "Undefined property 'missing'."
    );
    assert_eq!(environment.len(), 2);
}

#[test]
fn the_last_scope_goes_unless_a_function_closed_over_it() {
    let mut environment = Environment::new(false);
    let first = environment.nest(0).unwrap();
    let second = environment.nest(first).unwrap();
    assert!(!environment.is_captured(first));
    environment.release(first);
    assert_eq!(environment.len(), 3);
    environment.release(second);
    assert_eq!(environment.len(), 2);
    environment.capture(first);
    assert!(environment.is_captured(first));
    assert!(!environment.is_captured(0));
    assert!(!environment.is_captured(9));
    environment.release(first);
    assert_eq!(environment.len(), 2);
    let third = environment.nest(first).unwrap();
    assert_eq!(third, 2);
    assert!(!environment.is_captured(third));
    environment.define(third, String::from("a"), &whole(1));
    environment.release(third);
    assert_eq!(environment.len(), 2);
    let again = environment.nest(0).unwrap();
    assert_eq!(again, 2);
    assert!(environment.find_at(again, 0, &String::from("a")).is_none());
    environment.release(7);
    environment.capture(7);
    assert_eq!(environment.len(), 3);
}

#[test]
fn the_global_scope_never_goes() {
    let mut environment = Environment::new(false);
    environment.release(0);
    assert_eq!(environment.len(), 1);
    environment.define(0, String::from("a"), &whole(1));
    environment.release(0);
    assert_eq!(as_int(&environment.get(0, &name("a")).unwrap()), 1);
}
