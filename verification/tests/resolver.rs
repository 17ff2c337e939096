use lox_rust::error::Error;
use lox_rust::float_unit::FloatUnit;
use lox_rust::lexer::Lexer;
use lox_rust::parser::Parser;
use lox_rust::resolver::Resolver;
use lox_rust::stmt::Stmt;
use lox_rust::token_type::TokenType;

struct Floats;

impl FloatUnit for Floats {
    fn widen(&self, i: isize) -> u64 {
        (i as f64).to_bits()
    }

    fn negate(&self, a: u64) -> u64 {
        a
    }

    fn arithmetic(&self, _operator: TokenType, a: u64, _b: u64) -> u64 {
        a
    }

    fn compare(&self, _operator: TokenType, a: u64, b: u64) -> bool {
        a == b
    }

    fn render(&self, a: u64) -> String {
        format!("{}", f64::from_bits(a))
    }

    fn parse(&self, numeral: &str) -> u64 {
        numeral.parse::<f64>().unwrap().to_bits()
    }
}

fn parse(source: &str) -> Vec<Stmt> {
    let mut lexer = Lexer::new(String::from(source));
    let tokens = lexer.tokenize_all(&Floats);
    Parser::new(tokens).parse().unwrap()
}

/// What the resolver finds in a program: for each resolved expression the
/// place of its name among the tokens, and the distance of its binding.
fn resolved(source: &str) -> Vec<(usize, usize)> {
    let statements = parse(source);
    let mut resolver = Resolver::new();
    match resolver.resolve_statements(&statements) {
        Ok(()) => resolver.resolved().clone(),
        Err(error) => panic!("{:?}", error),
    }
}

/// The message with which the resolver refuses a program, and the lexeme
/// and line of the token it names.
fn refusal(source: &str) -> (String, String, usize) {
    let statements = parse(source);
    let mut resolver = Resolver::new();
    match resolver.resolve_statements(&statements) {
        Err(Error::ResolveError(token, message)) => (message, token.lexeme, token.line),
        other => panic!("{:?}", other),
    }
}

#[test]
fn redeclaring_in_one_block_is_refused() {
    let (message, lexeme, line) = refusal("{ var a = 1;\n var a = 2; }");
    assert_eq!(message, "Variable with this name already declared in this scope.");
    assert_eq!(lexeme, "a");
    assert_eq!(line, 1);
    assert_eq!(
        refusal("fun f(a, a) {}").0,
        "Variable with this name already declared in this scope."
    );
    assert_eq!(
        refusal("fun f(a) { var a = 1; }").0,
        "Variable with this name already declared in this scope."
    );
    assert_eq!(
        refusal("{ fun f() {} var f; }").0,
        "Variable with this name already declared in this scope."
    );
    assert_eq!(
        refusal("{ class A {} class A {} }").0,
        "Variable with this name already declared in this scope."
    );
}

#[test]
fn redeclaring_in_a_nested_block_is_accepted() {
    assert!(resolved("{ var a = 1; { var a = 2; } }").is_empty());
    assert!(resolved("{ var a = 1; { var a = 2; { var a = 3; } } }").is_empty());
    assert!(resolved("fun f(a) { { var a = 1; } }").is_empty());
    assert!(resolved("{ var a; fun f(a) {} }").is_empty());
}

#[test]
fn redeclaring_a_global_is_accepted() {
    assert!(resolved("var a = 1; var a = 2;").is_empty());
}

#[test]
fn return_outside_a_function_is_refused() {
    let (message, lexeme, _) = refusal("return 1;");
    assert_eq!(message, "Cannot return from top-level code.");
    assert_eq!(lexeme, "return");
    assert_eq!(refusal("return;").0, "Cannot return from top-level code.");
    assert_eq!(refusal("{ return 1; }").0, "Cannot return from top-level code.");
    assert_eq!(refusal("if (true) return;").0, "Cannot return from top-level code.");
    assert_eq!(refusal("fun f() {} return 1;").0, "Cannot return from top-level code.");
    assert_eq!(refusal("class A { m() {} } return 1;").0, "Cannot return from top-level code.");
}

#[test]
fn return_inside_a_function_is_accepted() {
    assert!(resolved("fun f() { return 1; }").is_empty());
    assert!(resolved("fun f() { { while (true) { return; } } }").is_empty());
    assert!(resolved("class A { m() { return 1; } }").is_empty());
}

#[test]
fn this_outside_a_class_is_refused() {
    let (message, lexeme, _) = refusal("print this;");
    assert_eq!(message, "Cannot use 'this' outside of a class.");
    assert_eq!(lexeme, "this");
    assert_eq!(refusal("fun f() { return this; }").0, "Cannot use 'this' outside of a class.");
    assert_eq!(refusal("class A {} this;").0, "Cannot use 'this' outside of a class.");
}

#[test]
fn this_inside_a_method_is_one_scope_out() {
    assert_eq!(resolved("class A { m() { this; } }"), vec![(7, 1)]);
    assert_eq!(resolved("class A { m() { { this; } } }"), vec![(8, 2)]);
    assert_eq!(resolved("class A { m() { fun g() { this; } } }"), vec![(12, 2)]);
}

#[test]
fn a_value_returned_from_an_initialiser_is_refused() {
    let (message, lexeme, _) = refusal("class A { init() { return 1; } }");
    assert_eq!(message, "Cannot return a value from an initializer.");
    assert_eq!(lexeme, "return");
    assert_eq!(
        refusal("class A { init() { if (true) { return this; } } }").0,
        "Cannot return a value from an initializer."
    );
}

#[test]
fn an_empty_return_in_an_initialiser_is_accepted() {
    assert!(resolved("class A { init() { return; } }").is_empty());
    assert!(resolved("class A { other() { return 1; } }").is_empty());
    assert!(resolved("class A { init() { fun g() { return 1; } } }").is_empty());
}

#[test]
fn the_kind_of_function_is_restored_after_a_function() {
    assert_eq!(
        refusal("class A { init() { fun g() { return 1; } return 2; } }").0,
        "Cannot return a value from an initializer."
    );
    assert_eq!(refusal("fun f() { fun g() {} } return;").0, "Cannot return from top-level code.");
    assert_eq!(
        refusal("fun f() { class A { m() {} } this; }").0,
        "Cannot use 'this' outside of a class."
    );
}

#[test]
fn a_local_may_not_be_read_in_its_own_initialiser() {
    let (message, lexeme, _) = refusal("{ var a = a; }");
    assert_eq!(message, "Cannot read local variable in its own initializer.");
    assert_eq!(lexeme, "a");
    assert_eq!(
        refusal("var a = 1; { var a = a + 1; }").0,
        "Cannot read local variable in its own initializer."
    );
    assert!(resolved("var a = a;").is_empty());
    assert_eq!(resolved("{ var a = 1; { var b = a; } }"), vec![(10, 1)]);
}

#[test]
fn distances_count_the_scopes_between_use_and_binding() {
    assert_eq!(resolved("{ var a; a; }"), vec![(4, 0)]);
    assert_eq!(resolved("{ var a; { a; } }"), vec![(5, 1)]);
    assert_eq!(resolved("{ var a; { { a; } } }"), vec![(6, 2)]);
    assert_eq!(resolved("{ var a; { var a; a; } a; }"), vec![(8, 0), (11, 0)]);
    assert_eq!(resolved("fun f(p) { p; { p; } }"), vec![(6, 0), (9, 1)]);
}

#[test]
fn globals_are_left_unresolved() {
    assert!(resolved("var a; a; a = 1; print a;").is_empty());
    assert!(resolved("{ b; c = 1; }").is_empty());
    assert!(resolved("fun f() { return f; }").is_empty());
    assert!(resolved("class A {} { A; }").is_empty());
}

#[test]
fn assignments_are_resolved_after_their_value() {
    assert_eq!(resolved("{ var a; var b; a = b; }"), vec![(9, 0), (7, 0)]);
    assert_eq!(resolved("{ var a; { a = 1; } }"), vec![(5, 1)]);
}

#[test]
fn a_function_in_a_block_may_call_itself() {
    assert_eq!(resolved("{ fun f() { f(); } }"), vec![(6, 1)]);
    assert_eq!(resolved("{ class A { m() { A; } } }"), vec![(8, 2)]);
}

#[test]
fn the_class_a_class_extends_is_resolved() {
    assert_eq!(resolved("{ class A {} class B < A {} }"), vec![(8, 0)]);
    assert!(resolved("class A {} class B < A {}").is_empty());
}

#[test]
fn every_kind_of_expression_is_walked() {
    assert_eq!(
        resolved("{ var a; -a; (a); a + a; a or a; a(a); a.b; a.b = a; }"),
        vec![
            (5, 0),
            (8, 0),
            (11, 0),
            (13, 0),
            (15, 0),
            (17, 0),
            (19, 0),
            (21, 0),
            (24, 0),
            (32, 0),
            (28, 0)
        ]
    );
}

#[test]
fn every_kind_of_statement_is_walked() {
    assert_eq!(
        resolved("{ var a; print a; if (a) a; else a; while (a) a; var b = a; }"),
        vec![(5, 0), (9, 0), (11, 0), (14, 0), (18, 0), (20, 0), (25, 0)]
    );
}

#[test]
fn scopes_can_be_entered_and_left_by_hand() {
    let statements = parse("var a; a;");
    let mut resolver = Resolver::new();
    resolver.begin_scope();
    assert!(resolver.resolve_statements(&statements).is_ok());
    assert_eq!(resolver.resolved().clone(), vec![(3, 0)]);
    resolver.begin_scope();
    let more = parse("a;");
    assert!(resolver.resolve_statements(&more).is_ok());
    assert_eq!(resolver.resolved().clone(), vec![(3, 0), (0, 1)]);
    resolver.end_scope();
    resolver.end_scope();
    resolver.end_scope();
    assert!(resolver.resolve_statements(&more).is_ok());
    assert_eq!(resolver.resolved().len(), 2);
}

#[test]
fn an_error_stops_the_pass() {
    let statements = parse("{ var a; a; var a; a; }");
    let mut resolver = Resolver::new();
    assert!(resolver.resolve_statements(&statements).is_err());
    assert_eq!(resolver.resolved().clone(), vec![(4, 0)]);
}

#[test]
fn a_refused_read_records_no_distance_and_is_reported() {
    let statements = parse("{ var b; b; { var a = a; } }");
    let mut resolver = Resolver::new();
    assert!(resolver.reports().is_empty());
    assert!(resolver.resolve_statements(&statements).is_err());
    assert_eq!(resolver.resolved().clone(), vec![(4, 0)]);
    assert_eq!(
        resolver.reports().clone(),
        vec!["[line 0] Error : Cannot read local variable in its own initializer."]
    );
}

#[test]
fn other_refusals_record_and_report_nothing() {
    for source in ["{ var b; b; this; }", "{ var b; b; return 1; }", "{ var b; b; var b; }"] {
        let statements = parse(source);
        let mut resolver = Resolver::new();
        assert!(resolver.resolve_statements(&statements).is_err());
        assert_eq!(resolver.resolved().clone(), vec![(4, 0)]);
        assert!(resolver.reports().is_empty());
    }
}
