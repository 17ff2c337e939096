use lox_rust::error::{lexer_error, report};
use lox_rust::text::{isize_text, usize_text};

#[test]
fn usize_text_writes_decimal_digits() {
    assert_eq!(usize_text(0), "0");
    assert_eq!(usize_text(7), "7");
    assert_eq!(usize_text(10), "10");
    assert_eq!(usize_text(1234567890), "1234567890");
    assert_eq!(usize_text(usize::MAX), usize::MAX.to_string());
}

#[test]
fn isize_text_writes_a_sign_before_negative_numbers() {
    assert_eq!(isize_text(0), "0");
    assert_eq!(isize_text(-1), "-1");
    assert_eq!(isize_text(-120), "-120");
    assert_eq!(isize_text(isize::MIN), isize::MIN.to_string());
    assert_eq!(isize_text(isize::MAX), isize::MAX.to_string());
}

#[test]
fn report_names_line_place_and_message() {
    assert_eq!(report(3, " at end", "Expect expression."), "[line 3] Error  at end: Expect expression.");
    assert_eq!(lexer_error(12, "Unexpected character."), "[line 12] Error : Unexpected character.");
}
