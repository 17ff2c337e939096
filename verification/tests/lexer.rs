use lox_rust::float_unit::FloatUnit;
use lox_rust::lexer::{characters, is_alpha_numeric, scan_token, Lexer};
use lox_rust::token::{Literal, Token};
use lox_rust::token_type::TokenType;

struct Floats;

impl FloatUnit for Floats {
    fn widen(&self, i: isize) -> u64 {
        (i as f64).to_bits()
    }

    fn negate(&self, a: u64) -> u64 {
        (-f64::from_bits(a)).to_bits()
    }

    fn arithmetic(&self, _operator: TokenType, a: u64, _b: u64) -> u64 {
        a
    }

    fn compare(&self, _operator: TokenType, a: u64, b: u64) -> bool {
        f64::from_bits(a) == f64::from_bits(b)
    }

    fn render(&self, a: u64) -> String {
        format!("{}", f64::from_bits(a))
    }

    fn parse(&self, numeral: &str) -> u64 {
        numeral.parse::<f64>().unwrap().to_bits()
    }
}

fn lex(source: &str) -> (Vec<Token>, Vec<String>) {
    let mut lexer = Lexer::new(String::from(source));
    let tokens = lexer.tokenize_all(&Floats);
    (tokens, lexer.reports().clone())
}

fn kinds(source: &str) -> Vec<TokenType> {
    lex(source).0.iter().map(|token| token.token_type).collect()
}

fn lexemes(source: &str) -> Vec<String> {
    lex(source).0.iter().map(|token| token.lexeme.clone()).collect()
}

#[test]
fn empty_text_is_the_end_of_input_alone() {
    let (tokens, reports) = lex("");
    assert_eq!(tokens.len(), 1);
    assert_eq!(tokens[0].token_type, TokenType::EOF);
    assert_eq!(tokens[0].lexeme, "");
    assert_eq!(tokens[0].line, 0);
    assert!(matches!(tokens[0].literal, Literal::Nil));
    assert!(reports.is_empty());
}

#[test]
fn single_character_tokens() {
    assert_eq!(
        kinds("(){},.-+;*/"),
        vec![
            TokenType::LeftParen,
            TokenType::RightParen,
            TokenType::LeftBrace,
            TokenType::RightBrace,
            TokenType::Comma,
            TokenType::Dot,
            TokenType::Minus,
            TokenType::Plus,
            TokenType::Semicolon,
            TokenType::Star,
            TokenType::Slash,
            TokenType::EOF,
        ]
    );
}

#[test]
fn operators_of_one_or_two_characters() {
    assert_eq!(
        kinds("! != = == < <= > >="),
        vec![
            TokenType::Bang,
            TokenType::BangEqual,
            TokenType::Equal,
            TokenType::EqualEqual,
            TokenType::Less,
            TokenType::LessEqual,
            TokenType::Greater,
            TokenType::GreaterEqual,
            TokenType::EOF,
        ]
    );
    assert_eq!(lexemes("a<=b"), vec!["a", "<=", "b", ""]);
    assert_eq!(kinds("==="), vec![TokenType::EqualEqual, TokenType::Equal, TokenType::EOF]);
    assert_eq!(kinds("!"), vec![TokenType::Bang, TokenType::EOF]);
}

#[test]
fn keywords_and_identifiers() {
    assert_eq!(
        kinds("and class else false for fun if nil or print return super this true var while"),
        vec![
            TokenType::And,
            TokenType::Class,
            TokenType::Else,
            TokenType::False,
            TokenType::For,
            TokenType::Fun,
            TokenType::If,
            TokenType::Nil,
            TokenType::Or,
            TokenType::Print,
            TokenType::Return,
            TokenType::Super,
            TokenType::This,
            TokenType::True,
            TokenType::Var,
            TokenType::While,
            TokenType::EOF,
        ]
    );
    assert_eq!(
        kinds("andy _x x1 format classes"),
        vec![
            TokenType::Identifier,
            TokenType::Identifier,
            TokenType::Identifier,
            TokenType::Identifier,
            TokenType::Identifier,
            TokenType::EOF,
        ]
    );
    assert_eq!(lexemes("andy _x x1"), vec!["andy", "_x", "x1", ""]);
}

#[test]
fn integers_are_tried_before_floats() {
    let (tokens, _) = lex("10 10.0 007 1.5");
    assert!(matches!(tokens[0].literal, Literal::Isize(10)));
    assert_eq!(tokens[0].lexeme, "10");
    match tokens[1].literal {
        Literal::Float(bits) => assert_eq!(f64::from_bits(bits), 10.0),
        ref other => panic!("{:?}", other),
    }
    assert_eq!(tokens[1].lexeme, "10.0");
    assert!(matches!(tokens[2].literal, Literal::Isize(7)));
    match tokens[3].literal {
        Literal::Float(bits) => assert_eq!(f64::from_bits(bits), 1.5),
        ref other => panic!("{:?}", other),
    }
    assert_eq!(tokens[0].token_type, TokenType::Number);
    assert_eq!(tokens[1].token_type, TokenType::Number);
}

#[test]
fn an_integer_too_large_becomes_a_float() {
    let (tokens, reports) = lex("9223372036854775807 9223372036854775808");
    assert!(matches!(tokens[0].literal, Literal::Isize(isize::MAX)));
    match tokens[1].literal {
        Literal::Float(bits) => assert_eq!(f64::from_bits(bits), 9223372036854775808.0),
        ref other => panic!("{:?}", other),
    }
    assert!(reports.is_empty());
}

#[test]
fn a_point_without_digits_is_no_part_of_a_number() {
    assert_eq!(
        kinds("1. 2"),
        vec![TokenType::Number, TokenType::Dot, TokenType::Number, TokenType::EOF]
    );
    assert_eq!(kinds("1."), vec![TokenType::Number, TokenType::Dot, TokenType::EOF]);
    assert_eq!(
        kinds("1.a"),
        vec![TokenType::Number, TokenType::Dot, TokenType::Identifier, TokenType::EOF]
    );
    assert_eq!(lexemes("12.34.5"), vec!["12.34", ".", "5", ""]);
}

#[test]
fn strings_keep_their_quotes_in_the_lexeme_only() {
    let (tokens, reports) = lex("\"hello world\"");
    assert_eq!(tokens[0].token_type, TokenType::String);
    assert_eq!(tokens[0].lexeme, "\"hello world\"");
    match &tokens[0].literal {
        Literal::String(content) => assert_eq!(content, "hello world"),
        other => panic!("{:?}", other),
    }
    assert!(reports.is_empty());
    let (tokens, _) = lex("\"\"");
    match &tokens[0].literal {
        Literal::String(content) => assert_eq!(content, ""),
        other => panic!("{:?}", other),
    }
}

#[test]
fn strings_may_span_lines() {
    let (tokens, _) = lex("\"a\nb\" x");
    assert_eq!(tokens[0].line, 1);
    assert_eq!(tokens[1].line, 1);
    match &tokens[0].literal {
        Literal::String(content) => assert_eq!(content, "a\nb"),
        other => panic!("{:?}", other),
    }
}

#[test]
fn strings_may_hold_any_character() {
    let (tokens, reports) = lex("\"héllo ✓\" + 1");
    match &tokens[0].literal {
        Literal::String(content) => assert_eq!(content, "héllo ✓"),
        other => panic!("{:?}", other),
    }
    assert_eq!(tokens[1].token_type, TokenType::Plus);
    assert!(reports.is_empty());
}

#[test]
fn an_unterminated_string_is_reported() {
    let (tokens, reports) = lex("1 \"abc");
    assert_eq!(tokens.len(), 2);
    assert_eq!(tokens[1].token_type, TokenType::EOF);
    assert_eq!(reports, vec!["[line 0] Error : Unterminated string."]);
    let (_, reports) = lex("\n\"ab\nc");
    assert_eq!(reports, vec!["[line 2] Error : Unterminated string."]);
}

#[test]
fn an_unexpected_character_is_reported_and_skipped() {
    let (tokens, reports) = lex("1 @ 2\n#");
    assert_eq!(tokens.len(), 3);
    assert_eq!(
        reports,
        vec!["[line 0] Error : Unexpected character.", "[line 1] Error : Unexpected character."]
    );
}

#[test]
fn comments_run_to_the_end_of_the_line() {
    assert_eq!(
        kinds("1 // two three\n4 / 5 // six"),
        vec![
            TokenType::Number,
            TokenType::Number,
            TokenType::Slash,
            TokenType::Number,
            TokenType::EOF
        ]
    );
    assert_eq!(kinds("// nothing"), vec![TokenType::EOF]);
    assert_eq!(kinds("//"), vec![TokenType::EOF]);
}

#[test]
fn lines_are_counted_from_zero() {
    let (tokens, _) = lex("a\nb\n\nc // x\nd");
    let lines: Vec<usize> = tokens.iter().map(|token| token.line).collect();
    assert_eq!(lines, vec![0, 1, 3, 4, 4]);
}

#[test]
fn blanks_separate_and_vanish() {
    assert_eq!(lexemes(" \t a \r\n b  "), vec!["a", "b", ""]);
}

#[test]
fn a_statement_in_tokens() {
    assert_eq!(
        lexemes("var answer = 6*7;"),
        vec!["var", "answer", "=", "6", "*", "7", ";", ""]
    );
}

#[test]
fn characters_of_a_text() {
    assert_eq!(characters("aé✓"), vec!['a', 'é', '✓']);
    assert!(characters("").is_empty());
}

#[test]
fn letters_digits_and_underscore_stand_in_identifiers() {
    for c in ['a', 'z', 'A', 'Z', '_', '0', '9', 'm'] {
        assert!(is_alpha_numeric(c));
    }
    for c in [' ', '-', 'é', '.', '"', '\n', '{'] {
        assert!(!is_alpha_numeric(c));
    }
}

#[test]
fn one_step_of_the_lexer() {
    let chars = characters("ab >= \"x\ny\"");
    let step = scan_token(&Floats, &chars, 0, 0);
    assert_eq!(step.end, 2);
    assert_eq!(step.token.unwrap().lexeme, "ab");
    let step = scan_token(&Floats, &chars, 2, 0);
    assert_eq!(step.end, 3);
    assert!(step.token.is_none());
    assert!(step.complaint.is_none());
    let step = scan_token(&Floats, &chars, 3, 0);
    assert_eq!(step.end, 5);
    assert_eq!(step.token.unwrap().token_type, TokenType::GreaterEqual);
    let step = scan_token(&Floats, &chars, 6, 0);
    assert_eq!(step.end, 11);
    assert_eq!(step.line, 1);
    assert_eq!(step.token.unwrap().line, 1);
}
