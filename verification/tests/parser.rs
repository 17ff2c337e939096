use lox_rust::ast_printer::AstPrinter;
use lox_rust::expr::Expr;
use lox_rust::float_unit::FloatUnit;
use lox_rust::lexer::Lexer;
use lox_rust::parser::{for_loop, Parser};
use lox_rust::stmt::Stmt;
use lox_rust::token::Literal;
use lox_rust::token_type::TokenType;

struct Floats;

impl FloatUnit for Floats {
    fn widen(&self, i: isize) -> u64 {
        (i as f64).to_bits()
    }

    fn negate(&self, a: u64) -> u64 {
        (-f64::from_bits(a)).to_bits()
    }

    fn arithmetic(&self, _operator: TokenType, a: u64, _b: u64) -> u64 {
        a
    }

    fn compare(&self, _operator: TokenType, a: u64, b: u64) -> bool {
        f64::from_bits(a) == f64::from_bits(b)
    }

    fn render(&self, a: u64) -> String {
        format!("{}", f64::from_bits(a))
    }

    fn parse(&self, numeral: &str) -> u64 {
        numeral.parse::<f64>().unwrap().to_bits()
    }
}

fn parser_of(source: &str) -> Parser {
    let mut lexer = Lexer::new(String::from(source));
    let tokens = lexer.tokenize_all(&Floats);
    Parser::new(tokens)
}

fn parse(source: &str) -> Vec<Stmt> {
    let mut parser = parser_of(source);
    match parser.parse() {
        Ok(statements) => {
            assert!(parser.reports().is_empty());
            statements
        }
        Err(error) => panic!("{:?}", error),
    }
}

/// The message of the error that stops the parser, and its reports.
fn refused(source: &str) -> (String, Vec<String>) {
    let mut parser = parser_of(source);
    match parser.parse() {
        Ok(_) => panic!("parsed: {}", source),
        Err(error) => (error.0, parser.reports().clone()),
    }
}

/// The expression of a program that is one expression statement, printed.
fn shown(source: &str) -> String {
    let statements = parse(source);
    assert_eq!(statements.len(), 1);
    match &statements[0] {
        Stmt::Expression { expression } => AstPrinter {}.print(&Floats, expression),
        other => panic!("{:?}", other),
    }
}

#[test]
fn multiplication_binds_tighter_than_addition() {
    assert_eq!(shown("1 + 2 * 3;"), "(+ 1 (* 2 3))");
    assert_eq!(shown("1 * 2 + 3;"), "(+ (* 1 2) 3)");
    assert_eq!(shown("1 - 2 / 3;"), "(- 1 (/ 2 3))");
}

#[test]
fn binary_operators_bind_to_the_left() {
    assert_eq!(shown("1 - 2 - 3;"), "(- (- 1 2) 3)");
    assert_eq!(shown("8 / 4 / 2;"), "(/ (/ 8 4) 2)");
    assert_eq!(shown("1 < 2 < 3;"), "(< (< 1 2) 3)");
    assert_eq!(shown("1 == 2 != 3;"), "(!= (== 1 2) 3)");
    assert_eq!(shown("a or b or c;"), "(or (or a b) c)");
}

#[test]
fn levels_of_operators_from_loose_to_tight() {
    assert_eq!(
        shown("a or b and c == d < e + f * -g;"),
        "(or a (and b (== c (< d (+ e (* f (- g)))))))"
    );
    assert_eq!(shown("a and b or c and d;"), "(or (and a b) (and c d))");
    assert_eq!(shown("1 + 2 >= 3 - 4;"), "(>= (+ 1 2) (- 3 4))");
    assert_eq!(shown("1 > 2 == 3 <= 4;"), "(== (> 1 2) (<= 3 4))");
}

#[test]
fn unary_operators_nest() {
    assert_eq!(shown("!!true;"), "(! (! true))");
    assert_eq!(shown("--1;"), "(- (- 1))");
    assert_eq!(shown("-a.b;"), "(- (. a b))");
    assert_eq!(shown("!f();"), "(! (call f))");
}

#[test]
fn parentheses_group() {
    assert_eq!(shown("(1 + 2) * 3;"), "(* (group (+ 1 2)) 3)");
    assert_eq!(shown("((1));"), "(group (group 1))");
}

#[test]
fn literals_print_as_written() {
    assert_eq!(shown("nil;"), "nil");
    assert_eq!(shown("true;"), "true");
    assert_eq!(shown("false;"), "false");
    assert_eq!(shown("12;"), "12");
    assert_eq!(shown("\"text\";"), "text");
    assert_eq!(shown("2.5;"), "2.5");
    assert_eq!(shown("this;"), "this");
}

#[test]
fn assignment_binds_to_the_right() {
    assert_eq!(shown("a = b = 1;"), "(= a (= b 1))");
    assert_eq!(shown("a = 1 + 2;"), "(= a (+ 1 2))");
    assert_eq!(shown("a.b = 1;"), "(= (. a b) 1)");
    assert_eq!(shown("a.b.c = d.e;"), "(= (. (. a b) c) (. d e))");
    assert_eq!(shown("a().b = 1;"), "(= (. (call a) b) 1)");
}

#[test]
fn calls_and_property_reads_chain() {
    assert_eq!(shown("f();"), "(call f)");
    assert_eq!(shown("f(1, 2 + 3);"), "(call f 1 (+ 2 3))");
    assert_eq!(shown("f(1)(2);"), "(call (call f 1) 2)");
    assert_eq!(shown("a.b.c;"), "(. (. a b) c)");
    assert_eq!(shown("a.b(1).c;"), "(. (call (. a b) 1) c)");
    assert_eq!(shown("f(g(h()));"), "(call f (call g (call h)))");
}

#[test]
fn invalid_assignment_targets_are_refused() {
    let (message, reports) = refused("1 = 2;");
    assert_eq!(message, "Invalid assignment target.");
    assert_eq!(reports, vec!["[line 0] Error : Invalid assignment target."]);
    assert_eq!(refused("a + b = 1;").0, "Invalid assignment target.");
    assert_eq!(refused("(a) = 1;").0, "Invalid assignment target.");
    assert_eq!(refused("f() = 1;").0, "Invalid assignment target.");
}

#[test]
fn a_missing_expression_is_refused() {
    assert_eq!(refused("1 + ;").0, "Expect expression.");
    assert_eq!(refused(";").0, "Expect expression.");
    assert_eq!(refused("print ;").0, "Expect expression.");
    assert_eq!(refused("(").0, "Expect expression.");
    assert_eq!(refused("var a = ;").0, "Expect expression.");
}

#[test]
fn an_error_at_the_end_of_input_is_reported_twice() {
    let (message, reports) = refused("1 +");
    assert_eq!(message, "Expect expression.");
    assert_eq!(
        reports,
        vec![
            "[line 0] Error  at end: Expect expression.",
            "[line 0] Error : Expect expression."
        ]
    );
}

#[test]
fn missing_punctuation_is_refused() {
    assert_eq!(refused("1").0, "Expect ';' after value.");
    assert_eq!(refused("print 1").0, "Expect ';' after value.");
    assert_eq!(refused("var a = 1").0, "Expect ';' after variable declaration.");
    assert_eq!(refused("var ;").0, "Expect variable name.");
    assert_eq!(refused("(1;").0, "Expect')' after expression.");
    assert_eq!(refused("f(1;").0, "Expect ')' after arguments.");
    assert_eq!(refused("a.;").0, "Expect property name after '.'.");
    assert_eq!(refused("{ 1;").0, "Expect '}' after block.");
    assert_eq!(refused("if 1) 2;").0, "Expect '(' after 'if'.");
    assert_eq!(refused("if (1 2;").0, "Expect ')' after if condition.");
    assert_eq!(refused("while 1) 2;").0, "Expect '(' after 'while'.");
    assert_eq!(refused("while (1 2;").0, "Expect ')' after condition.");
    assert_eq!(refused("for 1;").0, "Expect '(' after 'for'.");
    assert_eq!(refused("for (;1 2) 3;").0, "Expect ';' after loop condition.");
    assert_eq!(refused("for (;;1 2;").0, "Expect ')' after for clauses.");
    assert_eq!(refused("fun f() { return 1 }").0, "Expect ';' after return value.");
}

#[test]
fn malformed_functions_and_classes_are_refused() {
    assert_eq!(refused("fun () {}").0, "Expect function name.");
    assert_eq!(refused("fun f {}").0, "Expect '(' after function name.");
    assert_eq!(refused("fun f(1) {}").0, "Expect parameter name.");
    assert_eq!(refused("fun f(a b) {}").0, "Expect ')' after parameters.");
    assert_eq!(refused("fun f() 1;").0, "Expect '{' before function body.");
    assert_eq!(refused("class {}").0, "Expect class name.");
    assert_eq!(refused("class A < {}").0, "Expect superclass name.");
    assert_eq!(refused("class A }").0, "Expect '{' before class body.");
    assert_eq!(refused("class A { 1 }").0, "Expect method name.");
    assert_eq!(refused("class A { f }").0, "Expect '(' after method name.");
    assert_eq!(refused("class A { f() 1 }").0, "Expect '{' before method body.");
    assert_eq!(refused("class A { f() {}").0, "Expect '}' after class body.");
}

#[test]
fn the_first_error_stops_the_parser() {
    let (message, reports) = refused("print 1; var = 2; print ; fun ();");
    assert_eq!(message, "Expect variable name.");
    assert_eq!(reports.len(), 1);
}

#[test]
fn statements_of_every_kind() {
    let statements = parse(
        "var a = 1; print a; a; { a; } if (a) a; else a; while (a) a; fun f(x, y) { return x; } class A < B { m() {} }",
    );
    assert_eq!(statements.len(), 8);
    assert!(matches!(statements[0], Stmt::Var { .. }));
    assert!(matches!(statements[1], Stmt::Print { .. }));
    assert!(matches!(statements[2], Stmt::Expression { .. }));
    assert!(matches!(statements[3], Stmt::Block { .. }));
    assert!(matches!(statements[4], Stmt::If { else_branch: Some(_), .. }));
    assert!(matches!(statements[5], Stmt::While { .. }));
    match &statements[6] {
        Stmt::Function { declaration } => {
            assert_eq!(declaration.name.lexeme, "f");
            assert_eq!(declaration.params.len(), 2);
            assert_eq!(declaration.params[1].lexeme, "y");
            assert_eq!(declaration.body.len(), 1);
            assert!(matches!(declaration.body[0], Stmt::Return { .. }));
        }
        other => panic!("{:?}", other),
    }
    match &statements[7] {
        Stmt::Class { name, superclass, methods } => {
            assert_eq!(name.lexeme, "A");
            match superclass {
                Some(Expr::Variable { name, .. }) => assert_eq!(name.lexeme, "B"),
                other => panic!("{:?}", other),
            }
            assert_eq!(methods.len(), 1);
            assert_eq!(methods[0].name.lexeme, "m");
        }
        other => panic!("{:?}", other),
    }
}

#[test]
fn an_empty_program_has_no_statements() {
    assert!(parse("").is_empty());
    assert!(parse("// nothing\n").is_empty());
}

#[test]
fn else_belongs_to_the_nearest_if() {
    let statements = parse("if (a) if (b) 1; else 2;");
    match &statements[0] {
        Stmt::If { else_branch, then_branch, .. } => {
            assert!(else_branch.is_none());
            assert!(matches!(**then_branch, Stmt::If { else_branch: Some(_), .. }));
        }
        other => panic!("{:?}", other),
    }
}

#[test]
fn var_and_return_without_value_hold_nil() {
    let statements = parse("var a; fun f() { return; }");
    assert!(matches!(
        statements[0],
        Stmt::Var { initializer: Expr::Literal { value: Literal::Nil }, .. }
    ));
    match &statements[1] {
        Stmt::Function { declaration } => assert!(matches!(
            declaration.body[0],
            Stmt::Return { value: Expr::Literal { value: Literal::Nil }, .. }
        )),
        other => panic!("{:?}", other),
    }
}

#[test]
fn a_full_for_loop_becomes_blocks_and_a_while() {
    let statements = parse("for (var i = 0; i < 3; i = i + 1) print i;");
    assert_eq!(statements.len(), 1);
    let outer = match &statements[0] {
        Stmt::Block { statements } => statements,
        other => panic!("{:?}", other),
    };
    assert_eq!(outer.len(), 2);
    assert!(matches!(outer[0], Stmt::Var { .. }));
    let (condition, body) = match &outer[1] {
        Stmt::While { condition, body } => (condition, body),
        other => panic!("{:?}", other),
    };
    assert_eq!(AstPrinter {}.print(&Floats, condition), "(< i 3)");
    let inner = match &**body {
        Stmt::Block { statements } => statements,
        other => panic!("{:?}", other),
    };
    assert_eq!(inner.len(), 2);
    assert!(matches!(inner[0], Stmt::Print { .. }));
    match &inner[1] {
        Stmt::Expression { expression } => {
            assert_eq!(AstPrinter {}.print(&Floats, expression), "(= i (+ i 1))")
        }
        other => panic!("{:?}", other),
    }
}

#[test]
fn a_bare_for_loop_is_a_while_on_true() {
    let statements = parse("for (;;) print 1;");
    match &statements[0] {
        Stmt::While { condition, body } => {
            assert!(matches!(condition, Expr::Literal { value: Literal::Bool(true) }));
            assert!(matches!(**body, Stmt::Print { .. }));
        }
        other => panic!("{:?}", other),
    }
}

#[test]
fn a_for_loop_with_an_expression_as_initialiser() {
    let statements = parse("for (i = 0; i < 3;) print i;");
    match &statements[0] {
        Stmt::Block { statements } => {
            assert!(matches!(statements[0], Stmt::Expression { .. }));
            match &statements[1] {
                Stmt::While { body, .. } => assert!(matches!(**body, Stmt::Print { .. })),
                other => panic!("{:?}", other),
            }
        }
        other => panic!("{:?}", other),
    }
    let statements = parse("for (; i < 3; i = i + 1) print i;");
    match &statements[0] {
        Stmt::While { body, .. } => assert!(matches!(**body, Stmt::Block { .. })),
        other => panic!("{:?}", other),
    }
}

#[test]
fn for_loop_rewriting_by_itself() {
    let one = || Expr::Literal { value: Literal::Isize(1) };
    let print = || Stmt::Print { expression: one() };
    assert!(matches!(for_loop(None, one(), None, print()), Stmt::While { .. }));
    match for_loop(Some(print()), one(), Some(one()), print()) {
        Stmt::Block { statements } => {
            assert_eq!(statements.len(), 2);
            assert!(matches!(statements[0], Stmt::Print { .. }));
            match &statements[1] {
                Stmt::While { body, .. } => match &**body {
                    Stmt::Block { statements } => {
                        assert!(matches!(statements[0], Stmt::Print { .. }));
                        assert!(matches!(statements[1], Stmt::Expression { .. }));
                    }
                    other => panic!("{:?}", other),
                },
                other => panic!("{:?}", other),
            }
        }
        other => panic!("{:?}", other),
    }
}

#[test]
fn expressions_are_numbered_by_the_place_of_their_name() {
    let statements = parse("a; b = a; this;");
    let id_of = |statement: &Stmt| match statement {
        Stmt::Expression { expression: Expr::Variable { id, .. } } => *id,
        Stmt::Expression { expression: Expr::Assign { id, .. } } => *id,
        Stmt::Expression { expression: Expr::This { id, .. } } => *id,
        other => panic!("{:?}", other),
    };
    assert_eq!(id_of(&statements[0]), 0);
    assert_eq!(id_of(&statements[1]), 2);
    assert_eq!(id_of(&statements[2]), 6);
    match &statements[1] {
        Stmt::Expression { expression: Expr::Assign { value, .. } } => match &**value {
            Expr::Variable { id, .. } => assert_eq!(*id, 4),
            other => panic!("{:?}", other),
        },
        other => panic!("{:?}", other),
    }
}

#[test]
fn identifiers_are_counted_from_the_origin() {
    let mut lexer = Lexer::new(String::from("x; y;"));
    let tokens = lexer.tokenize_all(&Floats);
    let mut parser = Parser::with_origin(tokens, 1000);
    let statements = parser.parse().unwrap();
    match &statements[1] {
        Stmt::Expression { expression: Expr::Variable { id, name } } => {
            assert_eq!(*id, 1002);
            assert_eq!(name.lexeme, "y");
        }
        other => panic!("{:?}", other),
    }
    let mut lexer = Lexer::new(String::from("x; y;"));
    let tokens = lexer.tokenize_all(&Floats);
    let mut parser = Parser::with_origin(tokens, usize::MAX - 1);
    let statements = parser.parse().unwrap();
    match &statements[1] {
        Stmt::Expression { expression: Expr::Variable { id, .. } } => assert_eq!(*id, usize::MAX),
        other => panic!("{:?}", other),
    }
}

#[test]
fn more_than_255_arguments_are_reported_and_read() {
    let mut source = String::from("f(");
    for i in 0..256 {
        if i > 0 {
            source.push_str(", ");
        }
        source.push_str("1");
    }
    source.push_str(");");
    let mut parser = parser_of(&source);
    let statements = parser.parse().unwrap();
    match &statements[0] {
        Stmt::Expression { expression: Expr::Call { arguments, .. } } => {
            assert_eq!(arguments.len(), 256)
        }
        other => panic!("{:?}", other),
    }
    assert_eq!(
        parser.reports().clone(),
        vec!["[line 0] Error : Cannot have more than 255 arguments."]
    );
    let mut source = String::from("f(");
    for i in 0..255 {
        if i > 0 {
            source.push_str(", ");
        }
        source.push_str("1");
    }
    source.push_str(");");
    let mut parser = parser_of(&source);
    assert!(parser.parse().is_ok());
    assert!(parser.reports().is_empty());
}

#[test]
fn more_than_255_parameters_are_refused() {
    let mut source = String::from("fun f(");
    for i in 0..256 {
        if i > 0 {
            source.push_str(", ");
        }
        source.push_str(&format!("p{}", i));
    }
    source.push_str(") {}");
    assert_eq!(refused(&source).0, "Cannot have more than 255 parameters.");
    let mut source = String::from("fun f(");
    for i in 0..255 {
        if i > 0 {
            source.push_str(", ");
        }
        source.push_str(&format!("p{}", i));
    }
    source.push_str(") {}");
    assert_eq!(parse(&source).len(), 1);
}

#[test]
fn printer_shows_logical_and_grouped_expressions() {
    assert_eq!(shown("(a or b) and !c;"), "(and (group (or a b)) (! c))");
    assert_eq!(shown("-1.5 + 2;"), "(+ (- 1.5) 2)");
    assert_eq!(shown("\"a\" + \"b\";"), "(+ a b)");
}
