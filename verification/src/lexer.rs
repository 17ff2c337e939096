//! The lexer: from source text to tokens.

use vstd::prelude::*;
use vstd::string::*;
use vstd::std_specs::iter::IteratorSpec;
use crate::error::{lexer_error, report_text};
use crate::float_unit::FloatUnit;
use crate::object::Value;
use crate::text::spell;
use crate::token::{Literal, Token};
use crate::token_type::TokenType;

verus! {

broadcast use vstd::string::group_string_axioms;

/// A token as a mathematical value. The literal of a numeral that is no
/// integer of the machine is `None`: its number is the floating-point
/// unit's to tell.
pub struct Lexeme {
    pub kind: TokenType,
    pub text: Seq<char>,
    pub literal: Option<Value>,
    pub line: nat,
}

/// A token is the one that a lexeme describes.
pub open spec fn spells(token: Token, lexeme: Lexeme) -> bool {
    &&& token.token_type == lexeme.kind
    &&& token.lexeme@ == lexeme.text
    &&& token.line == lexeme.line
    &&& match lexeme.literal {
        Some(value) => token.literal@ == value,
        None => token.literal is Float,
    }
}

/// The tokens are those that the lexemes describe, in order.
pub open spec fn spell_all(tokens: Seq<Token>, lexemes: Seq<Lexeme>) -> bool {
    &&& tokens.len() == lexemes.len()
    &&& forall|i: int| 0 <= i < tokens.len() ==> spells(#[trigger] tokens[i], lexemes[i])
}

/// Whether a character is a decimal digit.
pub open spec fn is_digit(c: char) -> bool {
    '0' <= c <= '9'
}

/// Whether a character is a letter of the alphabet or an underscore.
pub open spec fn is_alpha(c: char) -> bool {
    ('a' <= c <= 'z') || ('A' <= c <= 'Z') || c == '_'
}

/// Whether a character can stand in an identifier.
#[verifier::when_used_as_spec(is_alpha_numeric_spec)]
pub fn is_alpha_numeric(c: char) -> (answer: bool)
    ensures
        answer == is_alpha_numeric_spec(c),
{
    ('a' <= c && c <= 'z') || ('A' <= c && c <= 'Z') || c == '_' || ('0' <= c && c <= '9')
}

/// Whether a character can stand in an identifier.
pub open spec fn is_alpha_numeric_spec(c: char) -> bool {
    is_alpha(c) || is_digit(c)
}

/// Where the digits that start at `from` end.
pub open spec fn digits_end(chars: Seq<char>, from: nat) -> nat
    decreases chars.len() - from,
{
    if from < chars.len() && is_digit(chars[from as int]) {
        digits_end(chars, from + 1)
    } else {
        from
    }
}

/// Where the letters, digits and underscores that start at `from` end.
pub open spec fn word_end(chars: Seq<char>, from: nat) -> nat
    decreases chars.len() - from,
{
    if from < chars.len() && is_alpha_numeric_spec(chars[from as int]) {
        word_end(chars, from + 1)
    } else {
        from
    }
}

/// Where the line that `from` stands in ends: at its line feed, or at the
/// end of the text.
pub open spec fn line_end(chars: Seq<char>, from: nat) -> nat
    decreases chars.len() - from,
{
    if from < chars.len() && chars[from as int] != '\n' {
        line_end(chars, from + 1)
    } else {
        from
    }
}

/// Where the string whose content starts at `from` closes, and the line
/// that place is on: the place of the next double quote, or the end of the
/// text, and one line more for every line feed passed.
pub open spec fn string_end(chars: Seq<char>, from: nat, line: nat) -> (nat, nat)
    decreases chars.len() - from,
{
    if from < chars.len() && chars[from as int] != '"' {
        string_end(
            chars,
            from + 1,
            if chars[from as int] == '\n' {
                line + 1
            } else {
                line
            },
        )
    } else {
        (from, line)
    }
}

/// The number that the digits from `from` on add to `so_far`, where it
/// fits the machine's integers.
pub open spec fn integer_of(digits: Seq<char>, from: nat, so_far: nat) -> Option<isize>
    decreases digits.len() - from,
{
    if from >= digits.len() {
        Some(so_far as isize)
    } else {
        let next = so_far * 10 + (digits[from as int] as int - '0' as int);
        if next > isize::MAX {
            None
        } else {
            integer_of(digits, from + 1, next as nat)
        }
    }
}

/// The keyword that a word is, if it is one.
pub open spec fn keyword(word: Seq<char>) -> Option<TokenType> {
    if word == "and"@ {
        Some(TokenType::And)
    } else if word == "class"@ {
        Some(TokenType::Class)
    } else if word == "else"@ {
        Some(TokenType::Else)
    } else if word == "false"@ {
        Some(TokenType::False)
    } else if word == "for"@ {
        Some(TokenType::For)
    } else if word == "fun"@ {
        Some(TokenType::Fun)
    } else if word == "if"@ {
        Some(TokenType::If)
    } else if word == "nil"@ {
        Some(TokenType::Nil)
    } else if word == "or"@ {
        Some(TokenType::Or)
    } else if word == "print"@ {
        Some(TokenType::Print)
    } else if word == "return"@ {
        Some(TokenType::Return)
    } else if word == "super"@ {
        Some(TokenType::Super)
    } else if word == "this"@ {
        Some(TokenType::This)
    } else if word == "true"@ {
        Some(TokenType::True)
    } else if word == "var"@ {
        Some(TokenType::Var)
    } else if word == "while"@ {
        Some(TokenType::While)
    } else {
        None
    }
}

/// What one step of the lexer finds at a place: where the next step
/// starts and on which line, the token read, if one was, and the message
/// of an error, if one was found.
pub struct Scanned {
    pub end: nat,
    pub line: nat,
    pub lexeme: Option<Lexeme>,
    pub complaint: Option<Seq<char>>,
}

/// A step that reads the token of the given kind from `start` up to `end`.
pub open spec fn plain(chars: Seq<char>, start: nat, end: nat, line: nat, kind: TokenType) -> Scanned {
    Scanned {
        end,
        line,
        lexeme: Some(
            Lexeme {
                kind,
                text: chars.subrange(start as int, end as int),
                literal: Some(Value::Nil),
                line,
            },
        ),
        complaint: None,
    }
}

/// A step at an operator that an equals sign may follow.
pub open spec fn paired(
    chars: Seq<char>,
    start: nat,
    line: nat,
    with_equal: TokenType,
    alone: TokenType,
) -> Scanned {
    if start + 1 < chars.len() && chars[start + 1 as int] == '=' {
        plain(chars, start, start + 2, line, with_equal)
    } else {
        plain(chars, start, start + 1, line, alone)
    }
}

/// Where the numeral that starts at `start` ends: after its digits, and
/// after a point and more digits where a point and a digit follow.
pub open spec fn numeral_end(chars: Seq<char>, start: nat) -> nat {
    let whole = digits_end(chars, start);
    if whole + 1 < chars.len() && chars[whole as int] == '.' && is_digit(chars[whole + 1 as int]) {
        digits_end(chars, whole + 1)
    } else {
        whole
    }
}

/// The step of the lexer at `start`, a place in the text.
pub open spec fn scan(chars: Seq<char>, start: nat, line: nat) -> Scanned {
    let c = chars[start as int];
    if c == '(' {
        plain(chars, start, start + 1, line, TokenType::LeftParen)
    } else if c == ')' {
        plain(chars, start, start + 1, line, TokenType::RightParen)
    } else if c == '{' {
        plain(chars, start, start + 1, line, TokenType::LeftBrace)
    } else if c == '}' {
        plain(chars, start, start + 1, line, TokenType::RightBrace)
    } else if c == ',' {
        plain(chars, start, start + 1, line, TokenType::Comma)
    } else if c == '.' {
        plain(chars, start, start + 1, line, TokenType::Dot)
    } else if c == '-' {
        plain(chars, start, start + 1, line, TokenType::Minus)
    } else if c == '+' {
        plain(chars, start, start + 1, line, TokenType::Plus)
    } else if c == ';' {
        plain(chars, start, start + 1, line, TokenType::Semicolon)
    } else if c == '*' {
        plain(chars, start, start + 1, line, TokenType::Star)
    } else if c == '!' {
        paired(chars, start, line, TokenType::BangEqual, TokenType::Bang)
    } else if c == '=' {
        paired(chars, start, line, TokenType::EqualEqual, TokenType::Equal)
    } else if c == '<' {
        paired(chars, start, line, TokenType::LessEqual, TokenType::Less)
    } else if c == '>' {
        paired(chars, start, line, TokenType::GreaterEqual, TokenType::Greater)
    } else if c == '/' {
        if start + 1 < chars.len() && chars[start + 1 as int] == '/' {
            Scanned { end: line_end(chars, start + 2), line, lexeme: None, complaint: None }
        } else {
            plain(chars, start, start + 1, line, TokenType::Slash)
        }
    } else if c == ' ' || c == '\r' || c == '\t' {
        Scanned { end: start + 1, line, lexeme: None, complaint: None }
    } else if c == '\n' {
        Scanned { end: start + 1, line: line + 1, lexeme: None, complaint: None }
    } else if c == '"' {
        let (close, last) = string_end(chars, start + 1, line);
        if close >= chars.len() {
            Scanned {
                end: close,
                line: last,
                lexeme: None,
                complaint: Some("Unterminated string."@),
            }
        } else {
            Scanned {
                end: close + 1,
                line: last,
                lexeme: Some(
                    Lexeme {
                        kind: TokenType::String,
                        text: chars.subrange(start as int, close + 1 as int),
                        literal: Some(Value::Str(chars.subrange(start + 1 as int, close as int))),
                        line: last,
                    },
                ),
                complaint: None,
            }
        }
    } else if is_digit(c) {
        let end = numeral_end(chars, start);
        let literal = if end == digits_end(chars, start) {
            match integer_of(chars.subrange(start as int, end as int), 0, 0) {
                Some(i) => Some(Value::Int(i)),
                None => None,
            }
        } else {
            None
        };
        Scanned {
            end,
            line,
            lexeme: Some(
                Lexeme {
                    kind: TokenType::Number,
                    text: chars.subrange(start as int, end as int),
                    literal,
                    line,
                },
            ),
            complaint: None,
        }
    } else if is_alpha(c) {
        let end = word_end(chars, start);
        let kind = match keyword(chars.subrange(start as int, end as int)) {
            Some(kind) => kind,
            None => TokenType::Identifier,
        };
        plain(chars, start, end, line, kind)
    } else {
        Scanned { end: start + 1, line, lexeme: None, complaint: Some("Unexpected character."@) }
    }
}

/// What the lexer makes of a text: its tokens, and its reports of what it
/// could not read.
pub struct Lexed {
    pub lexemes: Seq<Lexeme>,
    pub reports: Seq<Seq<char>>,
}

/// The token that ends every list of tokens.
pub open spec fn end_of_input(line: nat) -> Lexeme {
    Lexeme { kind: TokenType::EOF, text: Seq::empty(), literal: Some(Value::Nil), line }
}

/// The tokens and reports of the text from `start` on, step by step, and
/// the token of the end of input after them.
pub open spec fn lex(chars: Seq<char>, start: nat, line: nat) -> Lexed
    decreases chars.len() - start,
{
    if start >= chars.len() {
        Lexed { lexemes: seq![end_of_input(line)], reports: Seq::empty() }
    } else {
        let step = scan(chars, start, line);
        if step.end <= start || step.end > chars.len() {
            Lexed { lexemes: seq![end_of_input(line)], reports: Seq::empty() }
        } else {
            let rest = lex(chars, step.end, step.line);
            Lexed {
                lexemes: match step.lexeme {
                    Some(lexeme) => seq![lexeme] + rest.lexemes,
                    None => rest.lexemes,
                },
                reports: match step.complaint {
                    Some(message) => seq![report_text(step.line, ""@, message)] + rest.reports,
                    None => rest.reports,
                },
            }
        }
    }
}

/// The characters of a text.
pub fn characters(source: &str) -> (list: Vec<char>)
    ensures
        list@ == source@,
{
    let mut list: Vec<char> = Vec::new();
    let mut rest = source.chars();
    loop
        invariant
            list@ + rest.remaining() == source@,
            rest.obeys_prophetic_iter_laws(),
            rest.decrease() is Some,
        ensures
            list@ == source@,
        decreases rest.decrease()->0,
    {
        match rest.next() {
            Some(c) => {
                list.push(c);
                assert(list@ + rest.remaining() =~= source@);
            },
            None => {
                assert(list@ =~= source@);
                break ;
            },
        }
    }
    list
}

/// Skips digits.
fn skip_digits(chars: &Vec<char>, from: usize) -> (end: usize)
    requires
        from <= chars@.len(),
    ensures
        end == digits_end(chars@, from as nat),
        from <= end <= chars@.len(),
        from < chars@.len() && is_digit(chars@[from as int]) ==> from < end,
        forall|i: int| from <= i < end ==> is_digit(#[trigger] chars@[i]),
{
    let mut at = from;
    while at < chars.len() && '0' <= chars[at] && chars[at] <= '9'
        invariant
            from <= at <= chars@.len(),
            digits_end(chars@, at as nat) == digits_end(chars@, from as nat),
            forall|i: int| from <= i < at ==> is_digit(#[trigger] chars@[i]),
        decreases chars@.len() - at,
    {
        at = at + 1;
    }
    at
}

/// Skips letters, digits and underscores.
fn skip_word(chars: &Vec<char>, from: usize) -> (end: usize)
    requires
        from <= chars@.len(),
    ensures
        end == word_end(chars@, from as nat),
        from <= end <= chars@.len(),
        from < chars@.len() && is_alpha_numeric_spec(chars@[from as int]) ==> from < end,
{
    let mut at = from;
    while at < chars.len() && is_alpha_numeric(chars[at])
        invariant
            from <= at <= chars@.len(),
            word_end(chars@, at as nat) == word_end(chars@, from as nat),
        decreases chars@.len() - at,
    {
        at = at + 1;
    }
    at
}

/// Skips the rest of a line.
fn skip_line(chars: &Vec<char>, from: usize) -> (end: usize)
    requires
        from <= chars@.len(),
    ensures
        end == line_end(chars@, from as nat),
        from <= end <= chars@.len(),
{
    let mut at = from;
    while at < chars.len() && chars[at] != '\n'
        invariant
            from <= at <= chars@.len(),
            line_end(chars@, at as nat) == line_end(chars@, from as nat),
        decreases chars@.len() - at,
    {
        at = at + 1;
    }
    at
}

/// Skips the content of a string and counts its lines.
fn skip_string(chars: &Vec<char>, from: usize, line: usize) -> (end: (usize, usize))
    requires
        line <= from <= chars@.len(),
    ensures
        (end.0 as nat, end.1 as nat) == string_end(chars@, from as nat, line as nat),
        from <= end.0 <= chars@.len(),
        end.1 <= end.0,
{
    let mut at = from;
    let mut last = line;
    while at < chars.len() && chars[at] != '"'
        invariant
            last <= at,
            from <= at <= chars@.len(),
            string_end(chars@, at as nat, last as nat) == string_end(
                chars@,
                from as nat,
                line as nat,
            ),
        decreases chars@.len() - at,
    {
        if chars[at] == '\n' {
            last = last + 1;
        }
        at = at + 1;
    }
    (at, last)
}

/// Reads the digits from `from` up to `to` as an integer of the machine.
fn read_integer(chars: &Vec<char>, from: usize, to: usize) -> (number: Option<isize>)
    requires
        from <= to <= chars@.len(),
        forall|i: int| from <= i < to ==> is_digit(#[trigger] chars@[i]),
    ensures
        number == integer_of(chars@.subrange(from as int, to as int), 0, 0),
{
    let ghost digits = chars@.subrange(from as int, to as int);
    let mut so_far: usize = 0;
    let mut at = from;
    while at < to
        invariant
            from <= at <= to <= chars@.len(),
            digits == chars@.subrange(from as int, to as int),
            forall|i: int| from <= i < to ==> is_digit(#[trigger] chars@[i]),
            so_far <= isize::MAX,
            integer_of(digits, (at - from) as nat, so_far as nat) == integer_of(digits, 0, 0),
        decreases to - at,
    {
        let c = chars[at];
        assert(digits[at - from] == c);
        assert(is_digit(chars@[at as int]));
        let digit = (c as u32 - '0' as u32) as usize;
        if so_far > (isize::MAX as usize - digit) / 10 {
            assert(so_far * 10 + digit > isize::MAX) by (nonlinear_arith)
                requires
                    so_far > (isize::MAX as usize - digit) / 10,
                    digit <= isize::MAX,
            ;
            return None;
        }
        assert(so_far * 10 + digit <= isize::MAX) by (nonlinear_arith)
            requires
                so_far <= (isize::MAX as usize - digit) / 10,
                digit <= isize::MAX,
        ;
        so_far = so_far * 10 + digit;
        at = at + 1;
    }
    Some(so_far as isize)
}

/// Whether a word is the given one.
fn same(word: &String, other: &str) -> (answer: bool)
    ensures
        answer == (word@ == other@),
{
    let other = String::from_str(other);
    *word == other
}

/// The keyword that a word is, if it is one.
fn keyword_of(word: &String) -> (kind: Option<TokenType>)
    ensures
        kind == keyword(word@),
{
    if same(word, "and") {
        Some(TokenType::And)
    } else if same(word, "class") {
        Some(TokenType::Class)
    } else if same(word, "else") {
        Some(TokenType::Else)
    } else if same(word, "false") {
        Some(TokenType::False)
    } else if same(word, "for") {
        Some(TokenType::For)
    } else if same(word, "fun") {
        Some(TokenType::Fun)
    } else if same(word, "if") {
        Some(TokenType::If)
    } else if same(word, "nil") {
        Some(TokenType::Nil)
    } else if same(word, "or") {
        Some(TokenType::Or)
    } else if same(word, "print") {
        Some(TokenType::Print)
    } else if same(word, "return") {
        Some(TokenType::Return)
    } else if same(word, "super") {
        Some(TokenType::Super)
    } else if same(word, "this") {
        Some(TokenType::This)
    } else if same(word, "true") {
        Some(TokenType::True)
    } else if same(word, "var") {
        Some(TokenType::Var)
    } else if same(word, "while") {
        Some(TokenType::While)
    } else {
        None
    }
}

/// What one step of the lexer found.
pub struct Step {
    pub end: usize,
    pub line: usize,
    pub token: Option<Token>,
    pub complaint: Option<String>,
}

/// A step is the one that was meant.
pub open spec fn stepped(step: Step, meant: Scanned) -> bool {
    &&& step.end == meant.end
    &&& step.line == meant.line
    &&& match meant.lexeme {
        Some(lexeme) => step.token matches Some(token) && spells(token, lexeme),
        None => step.token is None,
    }
    &&& match meant.complaint {
        Some(message) => step.complaint matches Some(text) && text@ == message,
        None => step.complaint is None,
    }
}

/// A step that reads the token of the given kind from `start` up to `end`.
fn plain_step(chars: &Vec<char>, start: usize, end: usize, line: usize, kind: TokenType) -> (step:
    Step)
    requires
        start <= end <= chars@.len(),
    ensures
        stepped(step, plain(chars@, start as nat, end as nat, line as nat, kind)),
{
    Step {
        end,
        line,
        token: Some(Token::new(kind, spell(chars, start, end), Literal::Nil, line)),
        complaint: None,
    }
}

/// A step at an operator that an equals sign may follow.
fn paired_step(
    chars: &Vec<char>,
    start: usize,
    line: usize,
    with_equal: TokenType,
    alone: TokenType,
) -> (step: Step)
    requires
        start < chars@.len(),
    ensures
        stepped(step, paired(chars@, start as nat, line as nat, with_equal, alone)),
{
    let count = chars.len();
    if start + 1 < count && chars[start + 1] == '=' {
        plain_step(chars, start, start + 2, line, with_equal)
    } else {
        plain_step(chars, start, start + 1, line, alone)
    }
}

/// One step of the lexer at `start`, a place in the text: it reads one
/// token, or skips what is none, or finds what it cannot read. The
/// number of a numeral that is no integer of the machine comes from the
/// unit.
pub fn scan_token<F: FloatUnit>(unit: &F, chars: &Vec<char>, start: usize, line: usize) -> (step:
    Step)
    requires
        line <= start < chars@.len(),
    ensures
        stepped(step, scan(chars@, start as nat, line as nat)),
        start < step.end <= chars@.len(),
        step.line <= step.end,
{
    let count = chars.len();
    let c = chars[start];
    if c == '(' {
        plain_step(chars, start, start + 1, line, TokenType::LeftParen)
    } else if c == ')' {
        plain_step(chars, start, start + 1, line, TokenType::RightParen)
    } else if c == '{' {
        plain_step(chars, start, start + 1, line, TokenType::LeftBrace)
    } else if c == '}' {
        plain_step(chars, start, start + 1, line, TokenType::RightBrace)
    } else if c == ',' {
        plain_step(chars, start, start + 1, line, TokenType::Comma)
    } else if c == '.' {
        plain_step(chars, start, start + 1, line, TokenType::Dot)
    } else if c == '-' {
        plain_step(chars, start, start + 1, line, TokenType::Minus)
    } else if c == '+' {
        plain_step(chars, start, start + 1, line, TokenType::Plus)
    } else if c == ';' {
        plain_step(chars, start, start + 1, line, TokenType::Semicolon)
    } else if c == '*' {
        plain_step(chars, start, start + 1, line, TokenType::Star)
    } else if c == '!' {
        paired_step(chars, start, line, TokenType::BangEqual, TokenType::Bang)
    } else if c == '=' {
        paired_step(chars, start, line, TokenType::EqualEqual, TokenType::Equal)
    } else if c == '<' {
        paired_step(chars, start, line, TokenType::LessEqual, TokenType::Less)
    } else if c == '>' {
        paired_step(chars, start, line, TokenType::GreaterEqual, TokenType::Greater)
    } else if c == '/' {
        if start + 1 < chars.len() && chars[start + 1] == '/' {
            Step { end: skip_line(chars, start + 2), line, token: None, complaint: None }
        } else {
            plain_step(chars, start, start + 1, line, TokenType::Slash)
        }
    } else if c == ' ' || c == '\r' || c == '\t' {
        Step { end: start + 1, line, token: None, complaint: None }
    } else if c == '\n' {
        Step { end: start + 1, line: line + 1, token: None, complaint: None }
    } else if c == '"' {
        let (close, last) = skip_string(chars, start + 1, line);
        if close >= chars.len() {
            Step {
                end: close,
                line: last,
                token: None,
                complaint: Some(String::from_str("Unterminated string.")),
            }
        } else {
            Step {
                end: close + 1,
                line: last,
                token: Some(
                    Token::new(
                        TokenType::String,
                        spell(chars, start, close + 1),
                        Literal::String(spell(chars, start + 1, close)),
                        last,
                    ),
                ),
                complaint: None,
            }
        }
    } else if '0' <= c && c <= '9' {
        let whole = skip_digits(chars, start);
        let pointed = whole < count && chars[whole] == '.' && whole + 1 < count && '0'
            <= chars[whole + 1] && chars[whole + 1] <= '9';
        let end = if pointed {
            skip_digits(chars, whole + 1)
        } else {
            whole
        };
        let text = spell(chars, start, end);
        let integer = if end == whole {
            read_integer(chars, start, end)
        } else {
            None
        };
        let literal = match integer {
            Some(i) => Literal::Isize(i),
            None => Literal::Float(unit.parse(text.as_str())),
        };
        Step { end, line, token: Some(Token::new(TokenType::Number, text, literal, line)), complaint: None }
    } else if ('a' <= c && c <= 'z') || ('A' <= c && c <= 'Z') || c == '_' {
        let end = skip_word(chars, start);
        let text = spell(chars, start, end);
        let kind = match keyword_of(&text) {
            Some(kind) => kind,
            None => TokenType::Identifier,
        };
        Step { end, line, token: Some(Token::new(kind, text, Literal::Nil, line)), complaint: None }
    } else {
        Step {
            end: start + 1,
            line,
            token: None,
            complaint: Some(String::from_str("Unexpected character.")),
        }
    }
}

/// The lexer of one text.
pub struct Lexer {
    source: Vec<char>,
    reports: Vec<String>,
    current: usize,
    line: usize,
}

impl Lexer {
    /// The text that the lexer reads.
    pub closed spec fn source(&self) -> Seq<char> {
        self.source@
    }

    /// The reports made so far.
    pub closed spec fn told(&self) -> Seq<Seq<char>> {
        crate::error::texts(self.reports@)
    }

    /// A lexer at the start of `source`.
    pub fn new(source: String) -> (lexer: Lexer)
        ensures
            lexer.source() == source@,
            lexer.told() == Seq::<Seq<char>>::empty(),
    {
        Lexer {
            source: characters(source.as_str()),
            reports: Vec::new(),
            current: 0,
            line: 0,
        }
    }

    /// The reports, one line each, of what the lexer could not read.
    pub fn reports(&self) -> (lines: &Vec<String>)
        ensures
            crate::error::texts(lines@) == self.told(),
    {
        &self.reports
    }

    /// Reads the whole text from its start and returns its tokens; the last
    /// is the token of the end of input. What cannot be read is reported
    /// and skipped; the reports of an earlier reading are dropped.
    pub fn tokenize_all<F: FloatUnit>(&mut self, unit: &F) -> (tokens: Vec<Token>)
        ensures
            final(self).source() == old(self).source(),
            spell_all(tokens@, lex(old(self).source(), 0, 0).lexemes),
            final(self).told() == lex(old(self).source(), 0, 0).reports,
    {
        let ghost goal = lex(self.source@, 0, 0);
        self.current = 0;
        self.line = 0;
        self.reports = Vec::new();
        let mut tokens: Vec<Token> = Vec::new();
        let ghost mut read: Seq<Lexeme> = Seq::empty();
        assert(crate::error::texts(self.reports@) =~= Seq::empty());
        while self.current < self.source.len()
            invariant
                self.source@ == old(self).source@,
                self.line <= self.current <= self.source@.len(),
                goal == lex(self.source@, 0, 0),
                spell_all(tokens@, read),
                goal.lexemes == read + lex(
                    self.source@,
                    self.current as nat,
                    self.line as nat,
                ).lexemes,
                goal.reports == crate::error::texts(self.reports@) + lex(
                    self.source@,
                    self.current as nat,
                    self.line as nat,
                ).reports,
            decreases self.source@.len() - self.current,
        {
            let ghost rest = lex(self.source@, self.current as nat, self.line as nat);
            let ghost meant = scan(self.source@, self.current as nat, self.line as nat);
            let ghost after = lex(self.source@, meant.end, meant.line);
            let step = scan_token(unit, &self.source, self.current, self.line);
            self.current = step.end;
            self.line = step.line;
            match step.token {
                Some(token) => {
                    tokens.push(token);
                    proof {
                        let lexeme = meant.lexeme->Some_0;
                        assert(read + rest.lexemes =~= read.push(lexeme) + after.lexemes);
                        read = read.push(lexeme);
                    }
                },
                None => {},
            }
            match step.complaint {
                Some(message) => {
                    let ghost before = self.reports@;
                    let line = lexer_error(step.line, message.as_str());
                    self.reports.push(line);
                    proof {
                        let text = report_text(meant.line, ""@, meant.complaint->Some_0);
                        assert(crate::error::texts(self.reports@) =~= crate::error::texts(
                            before,
                        ).push(text));
                        assert(crate::error::texts(before) + rest.reports =~= crate::error::texts(
                            before,
                        ).push(text) + after.reports);
                    }
                },
                None => {},
            }
        }
        tokens.push(Token::new(TokenType::EOF, String::new(), Literal::Nil, self.line));
        proof {
            let last = end_of_input(self.line as nat);
            assert(goal.lexemes =~= read.push(last));
        }
        tokens
    }
}

} // verus!
