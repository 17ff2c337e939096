use lox_rust::environment::Environment;
use lox_rust::error::Error;
use lox_rust::float_unit::FloatUnit;
use lox_rust::interpreter::Interpreter;
use lox_rust::session::run;
use lox_rust::token_type::TokenType;

struct Floats;

impl FloatUnit for Floats {
    fn widen(&self, i: isize) -> u64 {
        (i as f64).to_bits()
    }

    fn negate(&self, a: u64) -> u64 {
        (-f64::from_bits(a)).to_bits()
    }

    fn arithmetic(&self, operator: TokenType, a: u64, b: u64) -> u64 {
        let (a, b) = (f64::from_bits(a), f64::from_bits(b));
        let result = match operator {
            TokenType::Plus => a + b,
            TokenType::Minus => a - b,
            TokenType::Star => a * b,
            _ => a / b,
        };
        result.to_bits()
    }

    fn compare(&self, _operator: TokenType, a: u64, b: u64) -> bool {
        f64::from_bits(a) == f64::from_bits(b)
    }

    fn render(&self, a: u64) -> String {
        format!("{}", f64::from_bits(a))
    }

    fn parse(&self, numeral: &str) -> u64 {
        numeral.parse::<f64>().unwrap().to_bits()
    }
}

#[test]
fn a_text_runs_from_source_to_output() {
    let mut interpreter = Interpreter::new(Environment::new(false));
    let mut diagnostics = Vec::new();
    let mut origin = 0;
    let result = run(&Floats, "var a = 2; print a * 21;", &mut interpreter, &mut origin, &mut diagnostics);
    assert!(result.is_ok());
    assert!(diagnostics.is_empty());
    assert_eq!(interpreter.output().clone(), vec!["42"]);
}

#[test]
fn a_text_that_does_not_parse_is_not_run() {
    let mut interpreter = Interpreter::new(Environment::new(false));
    let mut diagnostics = vec![String::from("earlier")];
    let mut origin = 0;
    let result = run(&Floats, "print 1; print ;", &mut interpreter, &mut origin, &mut diagnostics);
    match result {
        Err(Error::ParseError(message)) => assert_eq!(message, "parse error"),
        other => panic!("{:?}", other),
    }
    assert_eq!(diagnostics, vec!["earlier", "[line 0] Error : Expect expression."]);
    assert!(interpreter.output().is_empty());
    assert!(interpreter.reports().is_empty());
}

#[test]
fn reports_of_the_lexer_come_before_those_of_the_parser() {
    let mut interpreter = Interpreter::new(Environment::new(false));
    let mut diagnostics = Vec::new();
    let mut origin = 0;
    let result = run(&Floats, "print 1 @;\nprint", &mut interpreter, &mut origin, &mut diagnostics);
    assert!(matches!(result, Err(Error::ParseError(_))));
    assert_eq!(
        diagnostics,
        vec![
            "[line 0] Error : Unexpected character.",
            "[line 1] Error  at end: Expect expression.",
            "[line 1] Error : Expect expression.",
        ]
    );
}

#[test]
fn what_the_lexer_cannot_read_is_skipped_and_the_rest_runs() {
    let mut interpreter = Interpreter::new(Environment::new(false));
    let mut diagnostics = Vec::new();
    let mut origin = 0;
    let result = run(&Floats, "print 1 # ;", &mut interpreter, &mut origin, &mut diagnostics);
    assert!(result.is_ok());
    assert_eq!(diagnostics, vec!["[line 0] Error : Unexpected character."]);
    assert_eq!(interpreter.output().clone(), vec!["1"]);
}

#[test]
fn a_text_that_the_resolver_refuses_is_not_run() {
    let mut interpreter = Interpreter::new(Environment::new(false));
    let mut diagnostics = Vec::new();
    let mut origin = 0;
    let result = run(&Floats, "print 1; { var a; var a; }", &mut interpreter, &mut origin, &mut diagnostics);
    match result {
        Err(Error::ResolveError(token, message)) => {
            assert_eq!(message, "Variable with this name already declared in this scope.");
            assert_eq!(token.lexeme, "a");
        }
        other => panic!("{:?}", other),
    }
    assert!(diagnostics.is_empty());
    assert!(interpreter.output().is_empty());
}

#[test]
fn texts_of_one_session_keep_their_own_distances() {
    let mut interpreter = Interpreter::new(Environment::new(true));
    let mut diagnostics = Vec::new();
    let mut origin = 0;
    let first = "fun outer() { var a = 1; fun inner() { { return a; } } return inner; } var f = outer();";
    assert!(run(&Floats, first, &mut interpreter, &mut origin, &mut diagnostics).is_ok());
    let second = "{ var b = 10; { var c = 20; { f(); print b + c; } } }";
    assert!(run(&Floats, second, &mut interpreter, &mut origin, &mut diagnostics).is_ok());
    assert!(run(&Floats, "f();", &mut interpreter, &mut origin, &mut diagnostics).is_ok());
    assert_eq!(interpreter.output().clone(), vec!["1", "30", "1"]);
    assert!(diagnostics.is_empty());
}

#[test]
fn the_origin_moves_past_the_tokens_of_each_text() {
    let mut interpreter = Interpreter::new(Environment::new(false));
    let mut diagnostics = Vec::new();
    let mut origin = 0;
    assert!(run(&Floats, "var a = 1;", &mut interpreter, &mut origin, &mut diagnostics).is_ok());
    assert_eq!(origin, 6);
    assert!(run(&Floats, "", &mut interpreter, &mut origin, &mut diagnostics).is_ok());
    assert_eq!(origin, 7);
    assert!(run(&Floats, "print ;", &mut interpreter, &mut origin, &mut diagnostics).is_err());
    assert_eq!(origin, 10);
    let mut origin = usize::MAX - 2;
    assert!(run(&Floats, "print a;", &mut interpreter, &mut origin, &mut diagnostics).is_ok());
    assert_eq!(origin, usize::MAX);
}

#[test]
fn a_read_in_its_own_initialiser_is_reported_by_the_resolver() {
    let mut interpreter = Interpreter::new(Environment::new(false));
    let mut diagnostics = Vec::new();
    let mut origin = 0;
    let result = run(&Floats, "print 1;\n{ var a = a; }", &mut interpreter, &mut origin, &mut diagnostics);
    match result {
        Err(Error::ResolveError(token, message)) => {
            assert_eq!(message, "Cannot read local variable in its own initializer.");
            assert_eq!(token.lexeme, "a");
            assert_eq!(token.line, 1);
        }
        other => panic!("{:?}", other),
    }
    assert_eq!(
        diagnostics,
        vec!["[line 1] Error : Cannot read local variable in its own initializer."]
    );
    assert!(interpreter.output().is_empty());
    let result = run(&Floats, "{ var a; var a; }", &mut interpreter, &mut origin, &mut diagnostics);
    assert!(result.is_err());
    assert_eq!(diagnostics.len(), 1);
}
