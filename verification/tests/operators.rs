use lox_rust::callable::{Clock, LoxCallable, LoxFunction};
use lox_rust::environment::Environment;
use lox_rust::error::Error;
use lox_rust::expr::Expr;
use lox_rust::float_unit::FloatUnit;
use lox_rust::interpreter::{Completion, Interpreter};
use lox_rust::lox_class::LoxClass;
use lox_rust::name_map::NameMap;
use lox_rust::object::Object;
use lox_rust::operators::{binary_op, equal_values, integer_op, unary_op};
use lox_rust::stmt::{FunctionDecl, Stmt};
use lox_rust::token::{Literal, Token};
use lox_rust::token_type::TokenType;
use std::rc::Rc;

struct Floats;

impl FloatUnit for Floats {
    fn widen(&self, i: isize) -> u64 {
        (i as f64).to_bits()
    }

    fn negate(&self, a: u64) -> u64 {
        (-f64::from_bits(a)).to_bits()
    }

    fn arithmetic(&self, operator: TokenType, a: u64, b: u64) -> u64 {
        let (a, b) = (f64::from_bits(a), f64::from_bits(b));
        let result = match operator {
            TokenType::Plus => a + b,
            TokenType::Minus => a - b,
            TokenType::Star => a * b,
            _ => a / b,
        };
        result.to_bits()
    }

    fn compare(&self, operator: TokenType, a: u64, b: u64) -> bool {
        let (a, b) = (f64::from_bits(a), f64::from_bits(b));
        match operator {
            TokenType::Greater => a > b,
            TokenType::GreaterEqual => a >= b,
            TokenType::Less => a < b,
            TokenType::LessEqual => a <= b,
            _ => a == b,
        }
    }

    fn render(&self, a: u64) -> String {
        format!("{}", f64::from_bits(a))
    }

    fn parse(&self, numeral: &str) -> u64 {
        numeral.parse::<f64>().unwrap().to_bits()
    }
}

fn token(kind: TokenType, text: &str) -> Token {
    Token::new(kind, String::from(text), Literal::Nil, 1)
}

fn number(i: isize) -> Object {
    Object::Literal(Literal::Isize(i))
}

fn float_of(x: f64) -> Object {
    Object::Literal(Literal::Float(x.to_bits()))
}

fn text(s: &str) -> Object {
    Object::Literal(Literal::String(String::from(s)))
}

fn literal(i: isize) -> Expr {
    Expr::Literal { value: Literal::Isize(i) }
}

fn as_number(result: Result<Object, Error>) -> isize {
    match result {
        Ok(Object::Literal(Literal::Isize(i))) => i,
        Ok(_) => panic!("no integer"),
        Err(error) => panic!("{:?}", error),
    }
}

fn as_float(result: Result<Object, Error>) -> f64 {
    match result {
        Ok(Object::Literal(Literal::Float(bits))) => f64::from_bits(bits),
        Ok(_) => panic!("no float"),
        Err(error) => panic!("{:?}", error),
    }
}

fn as_truth(result: Result<Object, Error>) -> bool {
    match result {
        Ok(Object::Literal(Literal::Bool(b))) => b,
        Ok(_) => panic!("no truth value"),
        Err(error) => panic!("{:?}", error),
    }
}

fn failure(result: Result<Object, Error>) -> (String, String) {
    match result {
        Err(Error::RuntimeError(token, message)) => (message, token.lexeme),
        Err(other) => panic!("{:?}", other),
        Ok(_) => panic!("no failure"),
    }
}

#[test]
fn truncating_division_on_all_signs() {
    let slash = token(TokenType::Slash, "/");
    for (a, b, q) in [
        (7, 2, 3),
        (-7, 2, -3),
        (7, -2, -3),
        (-7, -2, 3),
        (0, 3, 0),
        (0, -3, 0),
        (1, 2, 0),
        (-1, 2, 0),
        (9, 3, 3),
        (isize::MAX, 1, isize::MAX),
        (isize::MAX, -1, -isize::MAX),
        (isize::MIN, 1, isize::MIN),
        (isize::MIN, 2, isize::MIN / 2),
        (isize::MIN, isize::MIN, 1),
        (isize::MAX, isize::MIN, 0),
    ] {
        assert_eq!(as_number(integer_op(&slash, a, b)), q);
        assert_eq!(as_number(binary_op(&Floats, &slash, &number(a), &number(b))), q);
        assert_eq!(q, a / b);
    }
    assert_eq!(failure(integer_op(&slash, 1, 0)), (String::from("Division by zero."), String::from("/")));
    assert_eq!(failure(integer_op(&slash, isize::MIN, -1)).0, "Integer overflow.");
}

#[test]
fn division_with_equal_valued_floats() {
    let slash = token(TokenType::Slash, "/");
    for (a, b) in [(7, 2), (-7, 2), (1, 3), (9, 3), (0, 5)] {
        let exact = a as f64 / b as f64;
        assert_eq!(as_float(binary_op(&Floats, &slash, &float_of(a as f64), &number(b))), exact);
        assert_eq!(as_float(binary_op(&Floats, &slash, &number(a), &float_of(b as f64))), exact);
        assert_eq!(as_float(binary_op(&Floats, &slash, &float_of(a as f64), &float_of(b as f64))), exact);
    }
    assert_eq!(as_float(binary_op(&Floats, &slash, &float_of(1.0), &number(0))), f64::INFINITY);
}

#[test]
fn integer_operators_check_their_range() {
    let plus = token(TokenType::Plus, "+");
    let minus = token(TokenType::Minus, "-");
    let star = token(TokenType::Star, "*");
    assert_eq!(as_number(integer_op(&plus, isize::MAX - 1, 1)), isize::MAX);
    assert_eq!(failure(integer_op(&plus, isize::MAX, 1)).0, "Integer overflow.");
    assert_eq!(failure(integer_op(&plus, isize::MIN, -1)).0, "Integer overflow.");
    assert_eq!(as_number(integer_op(&minus, isize::MIN + 1, 1)), isize::MIN);
    assert_eq!(failure(integer_op(&minus, isize::MIN, 1)).0, "Integer overflow.");
    assert_eq!(failure(integer_op(&minus, 0, isize::MIN)).0, "Integer overflow.");
    assert_eq!(as_number(integer_op(&star, isize::MAX, 1)), isize::MAX);
    assert_eq!(as_number(integer_op(&star, -3, 4)), -12);
    assert_eq!(failure(integer_op(&star, isize::MAX, 2)).0, "Integer overflow.");
    assert_eq!(failure(integer_op(&star, isize::MIN, -1)).0, "Integer overflow.");
    assert!(as_truth(integer_op(&token(TokenType::Less, "<"), -1, 0)));
    assert!(!as_truth(integer_op(&token(TokenType::Greater, ">"), -1, 0)));
    assert!(as_truth(integer_op(&token(TokenType::LessEqual, "<="), 2, 2)));
    assert!(as_truth(integer_op(&token(TokenType::GreaterEqual, ">="), 2, 2)));
}

#[test]
fn binary_operator_on_each_pair_of_kinds() {
    let plus = token(TokenType::Plus, "+");
    let minus = token(TokenType::Minus, "-");
    assert_eq!(as_number(binary_op(&Floats, &plus, &number(1), &number(2))), 3);
    assert_eq!(as_float(binary_op(&Floats, &plus, &number(1), &float_of(0.5))), 1.5);
    assert_eq!(as_float(binary_op(&Floats, &plus, &float_of(0.5), &number(1))), 1.5);
    assert_eq!(as_float(binary_op(&Floats, &plus, &float_of(0.5), &float_of(0.25))), 0.75);
    assert_eq!(as_float(binary_op(&Floats, &minus, &float_of(0.5), &float_of(0.25))), 0.25);
    match binary_op(&Floats, &plus, &text("a"), &text("b")) {
        Ok(Object::Literal(Literal::String(joined))) => assert_eq!(joined, "ab"),
        _ => panic!("no text"),
    }
    assert_eq!(
        failure(binary_op(&Floats, &minus, &text("a"), &text("b"))),
        (String::from("Operands must be numbers."), String::from("-"))
    );
    assert_eq!(failure(binary_op(&Floats, &plus, &text("a"), &number(1))).0, "Operands must be numbers.");
    assert_eq!(failure(binary_op(&Floats, &plus, &number(1), &Object::nil())).0, "Operands must be numbers.");
    assert_eq!(failure(binary_op(&Floats, &plus, &float_of(1.0), &Object::boolean(true))).0, "Operands must be numbers.");
    assert_eq!(failure(binary_op(&Floats, &plus, &Object::Instance(0), &number(1))).0, "Operands must be numbers.");
    assert_eq!(failure(binary_op(&Floats, &plus, &Object::Clock(Clock {}), &Object::Clock(Clock {}))).0, "Operands must be numbers.");
}

#[test]
fn an_operator_that_is_none_yields_nil() {
    let comma = token(TokenType::Comma, ",");
    assert!(matches!(binary_op(&Floats, &comma, &number(1), &number(2)), Ok(Object::Literal(Literal::Nil))));
    assert!(matches!(unary_op(&Floats, &comma, &number(1)), Ok(Object::Literal(Literal::Nil))));
}

#[test]
fn equality_of_values() {
    assert!(equal_values(&Floats, &number(1), &number(1)));
    assert!(!equal_values(&Floats, &number(1), &number(2)));
    assert!(equal_values(&Floats, &text("a"), &text("a")));
    assert!(!equal_values(&Floats, &text("a"), &text("A")));
    assert!(equal_values(&Floats, &Object::nil(), &Object::nil()));
    assert!(equal_values(&Floats, &Object::boolean(false), &Object::boolean(false)));
    assert!(!equal_values(&Floats, &Object::boolean(false), &Object::boolean(true)));
    assert!(equal_values(&Floats, &float_of(0.5), &float_of(0.5)));
    assert!(!equal_values(&Floats, &float_of(f64::NAN), &float_of(f64::NAN)));
    assert!(equal_values(&Floats, &float_of(0.0), &float_of(-0.0)));
    assert!(!equal_values(&Floats, &number(1), &float_of(1.0)));
    assert!(!equal_values(&Floats, &number(0), &Object::nil()));
    assert!(!equal_values(&Floats, &Object::Instance(1), &Object::Instance(1)));
    assert!(!equal_values(&Floats, &Object::Clock(Clock {}), &Object::Clock(Clock {})));
    let bang_equal = token(TokenType::BangEqual, "!=");
    let equal_equal = token(TokenType::EqualEqual, "==");
    assert!(as_truth(binary_op(&Floats, &bang_equal, &number(1), &text("1"))));
    assert!(!as_truth(binary_op(&Floats, &equal_equal, &number(1), &text("1"))));
    assert!(as_truth(binary_op(&Floats, &equal_equal, &number(4), &number(4))));
}

#[test]
fn unary_operators() {
    let minus = token(TokenType::Minus, "-");
    let bang = token(TokenType::Bang, "!");
    assert_eq!(as_number(unary_op(&Floats, &minus, &number(5))), -5);
    assert_eq!(as_number(unary_op(&Floats, &minus, &number(isize::MAX))), -isize::MAX);
    assert_eq!(failure(unary_op(&Floats, &minus, &number(isize::MIN))).0, "Integer overflow.");
    assert_eq!(as_float(unary_op(&Floats, &minus, &float_of(2.5))), -2.5);
    assert_eq!(
        failure(unary_op(&Floats, &minus, &text("a"))),
        (String::from("Operand must be a number."), String::from("-"))
    );
    assert_eq!(failure(unary_op(&Floats, &minus, &Object::nil())).0, "Operand must be a number.");
    assert!(as_truth(unary_op(&Floats, &bang, &Object::nil())));
    assert!(!as_truth(unary_op(&Floats, &bang, &number(0))));
    assert!(!as_truth(unary_op(&Floats, &bang, &Object::Instance(3))));
}

#[test]
fn evaluating_a_division_of_literals() {
    let mut interpreter = Interpreter::new(Environment::new(false));
    let expression = Expr::Binary {
        left: Box::new(literal(-9)),
        operator: token(TokenType::Slash, "/"),
        right: Box::new(literal(4)),
    };
    assert_eq!(as_number(interpreter.evaluate(&Floats, &expression, 2)), -2);
    assert_eq!(as_number(interpreter.evaluate(&Floats, &expression, 100)), -2);
    assert!(matches!(interpreter.evaluate(&Floats, &expression, 1), Err(Error::Exhausted)));
    assert!(matches!(interpreter.evaluate(&Floats, &expression, 0), Err(Error::Exhausted)));
}

#[test]
fn a_return_that_no_call_catches_is_reported() {
    let mut interpreter = Interpreter::new(Environment::new(false));
    let program = vec![
        Stmt::Print { expression: literal(1) },
        Stmt::Return { keyword: token(TokenType::Return, "return"), value: literal(2) },
        Stmt::Print { expression: literal(3) },
    ];
    match interpreter.interpret(&Floats, &program) {
        Err(Error::RuntimeError(token, message)) => {
            assert_eq!(message, "Cannot return from top-level code.");
            assert_eq!(token.lexeme, "return");
        }
        other => panic!("{:?}", other),
    }
    assert_eq!(interpreter.output().clone(), vec!["1", "3"]);
    assert_eq!(interpreter.reports().len(), 1);
    match interpreter.execute(&Floats, &program[1], 10) {
        Ok(Completion::Return(keyword, value)) => {
            assert_eq!(keyword.lexeme, "return");
            assert_eq!(as_number(Ok(value)), 2);
        }
        _ => panic!("no return"),
    }
}

#[test]
fn a_block_runs_in_the_scope_it_is_given() {
    let mut interpreter = Interpreter::new(Environment::new(false));
    let x = token(TokenType::Identifier, "x");
    let declare = vec![Stmt::Var { name: x.clone(), initializer: literal(5) }];
    let scopes = interpreter.environment().len();
    assert!(matches!(interpreter.execute_block(&Floats, &declare, 0, 10), Ok(Completion::Normal)));
    assert_eq!(interpreter.environment().len(), scopes);
    assert_eq!(as_number(interpreter.environment().get(0, &x)), 5);
    let block = Stmt::Block { statements: vec![Stmt::Var { name: x.clone(), initializer: literal(6) }] };
    assert!(matches!(interpreter.execute(&Floats, &block, 10), Ok(Completion::Normal)));
    assert_eq!(interpreter.environment().len(), scopes);
    assert_eq!(as_number(interpreter.environment().get(0, &x)), 5);
    let inner = interpreter.environment().len();
    let keeps = Stmt::Block {
        statements: vec![
            Stmt::Var { name: x.clone(), initializer: literal(6) },
            Stmt::Function {
                declaration: Rc::new(FunctionDecl {
                    name: token(TokenType::Identifier, "f"),
                    params: vec![],
                    body: vec![],
                }),
            },
        ],
    };
    assert!(matches!(interpreter.execute(&Floats, &keeps, 10), Ok(Completion::Normal)));
    assert_eq!(interpreter.environment().len(), scopes + 1);
    assert!(interpreter.environment().is_captured(inner));
    assert_eq!(as_number(interpreter.environment().get(inner, &x)), 6);
    assert_eq!(interpreter.environment().ancestor(inner, 1), Some(0));
}

#[test]
fn resolved_distances_steer_variable_reads() {
    let mut interpreter = Interpreter::new(Environment::new(false));
    let x = token(TokenType::Identifier, "x");
    let read = Expr::Variable { name: x.clone(), id: 77 };
    let program = vec![
        Stmt::Var { name: x.clone(), initializer: literal(1) },
        Stmt::Block {
            statements: vec![
                Stmt::Var { name: x.clone(), initializer: literal(2) },
                Stmt::Print { expression: Expr::Variable { name: x.clone(), id: 77 } },
            ],
        },
    ];
    assert!(interpreter.interpret(&Floats, &program).is_ok());
    interpreter.resolve(77, 0);
    assert!(interpreter.interpret(&Floats, &program).is_ok());
    interpreter.resolve(77, 1);
    assert!(interpreter.interpret(&Floats, &program).is_ok());
    assert_eq!(interpreter.output().clone(), vec!["1", "2", "1"]);
    interpreter.resolve(77, 5);
    match interpreter.evaluate(&Floats, &read, 10) {
        Err(Error::RuntimeError(_, message)) => assert_eq!(message, "Undefined variable 'x'."),
        _ => panic!("no failure"),
    }
}

#[test]
fn calls_through_the_trait_of_what_can_be_called() {
    let mut interpreter = Interpreter::new(Environment::new(false));
    let paren = token(TokenType::RightParen, ")");
    let declaration = Rc::new(FunctionDecl {
        name: token(TokenType::Identifier, "seven"),
        params: vec![token(TokenType::Identifier, "a")],
        body: vec![Stmt::Return {
            keyword: token(TokenType::Return, "return"),
            value: Expr::Binary {
                left: Box::new(Expr::Variable { name: token(TokenType::Identifier, "a"), id: 0 }),
                operator: token(TokenType::Plus, "+"),
                right: Box::new(literal(7)),
            },
        }],
    });
    let function = LoxFunction::new(declaration, 0);
    assert_eq!(function.arity(), 1);
    assert_eq!(
        failure(function.call(&mut interpreter, &Floats, &paren, vec![number(1)], 100)).0,
        "Undefined variable 'a'."
    );
    interpreter.resolve(0, 0);
    assert_eq!(as_number(function.call(&mut interpreter, &Floats, &paren, vec![number(1)], 100)), 8);
    assert_eq!(
        failure(function.call(&mut interpreter, &Floats, &paren, vec![], 100)),
        (String::from("Expected 1 arguments but got 0."), String::from(")"))
    );
    assert!(as_number(LoxCallable::call(&Clock {}, &mut interpreter, &Floats, &paren, vec![], 100)) > 0);
    let class = Rc::new(LoxClass::new(String::from("A"), None, NameMap::new()));
    match LoxCallable::call(&class, &mut interpreter, &Floats, &paren, vec![], 100) {
        Ok(Object::Instance(handle)) => assert_eq!(handle, 0),
        _ => panic!("no instance"),
    }
    match LoxCallable::call(&class, &mut interpreter, &Floats, &paren, vec![], 100) {
        Ok(Object::Instance(handle)) => assert_eq!(handle, 1),
        _ => panic!("no instance"),
    }
    assert_eq!(
        failure(interpreter.call(&Floats, &number(1), &paren, vec![], 100)).0,
        "Can only call functions and classes."
    );
    assert_eq!(
        failure(interpreter.call(&Floats, &Object::Func(LoxFunction::new(function.declaration.clone(), 99)), &paren, vec![number(1)], 100)).0,
        "Function scope is not of this interpreter."
    );
}

#[test]
fn properties_of_values_that_are_no_instances() {
    let mut interpreter = Interpreter::new(Environment::new(false));
    let name = token(TokenType::Identifier, "field");
    assert_eq!(
        failure(interpreter.property(&Object::Instance(5), &name)),
        (String::from("Only instances have properties."), String::from("field"))
    );
    assert_eq!(failure(interpreter.property(&number(1), &name)).0, "Only instances have properties.");
    assert_eq!(interpreter.stringify(&Floats, &Object::Instance(5)), "instance");
    assert_eq!(interpreter.stringify(&Floats, &float_of(0.5)), "0.5");
    assert_eq!(interpreter.stringify(&Floats, &number(-40)), "-40");
}

#[test]
fn arithmetic_with_a_float_yields_a_float_and_an_ordering_a_truth_value() {
    let mut interpreter = Interpreter::new(Environment::new(false));
    for (kind, lexeme) in [
        (TokenType::Plus, "+"),
        (TokenType::Minus, "-"),
        (TokenType::Star, "*"),
        (TokenType::Slash, "/"),
    ] {
        let operator = token(kind, lexeme);
        assert!(matches!(
            binary_op(&Floats, &operator, &number(7), &float_of(2.0)),
            Ok(Object::Literal(Literal::Float(_)))
        ));
        assert!(matches!(
            binary_op(&Floats, &operator, &float_of(7.0), &number(2)),
            Ok(Object::Literal(Literal::Float(_)))
        ));
        let expression = Expr::Binary {
            left: Box::new(literal(7)),
            operator,
            right: Box::new(Expr::Literal { value: Literal::Float(2.0f64.to_bits()) }),
        };
        assert!(matches!(
            interpreter.evaluate(&Floats, &expression, 5),
            Ok(Object::Literal(Literal::Float(_)))
        ));
    }
    for (kind, lexeme) in [
        (TokenType::Less, "<"),
        (TokenType::LessEqual, "<="),
        (TokenType::Greater, ">"),
        (TokenType::GreaterEqual, ">="),
        (TokenType::EqualEqual, "=="),
        (TokenType::BangEqual, "!="),
    ] {
        let operator = token(kind, lexeme);
        assert!(matches!(
            binary_op(&Floats, &operator, &float_of(7.0), &float_of(2.0)),
            Ok(Object::Literal(Literal::Bool(_)))
        ));
    }
    let slash = token(TokenType::Slash, "/");
    assert_eq!(as_float(binary_op(&Floats, &slash, &number(7), &float_of(2.0))), 3.5);
    assert_eq!(as_number(binary_op(&Floats, &slash, &number(7), &number(2))), 3);
}

#[test]
fn a_call_of_the_clock_leaves_the_interpreter_as_it_was() {
    let mut interpreter = Interpreter::new(Environment::new(false));
    let paren = token(TokenType::RightParen, ")");
    let scopes = interpreter.environment().len();
    let seconds = as_number(interpreter.call(&Floats, &Object::Clock(Clock {}), &paren, vec![], 10));
    assert!(seconds > 1500000000);
    assert_eq!(interpreter.environment().len(), scopes);
    assert!(interpreter.output().is_empty());
    assert!(interpreter.reports().is_empty());
}
