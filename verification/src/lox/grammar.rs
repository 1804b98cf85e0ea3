//! The lexical grammar, as functions on sequences of characters.
//!
//! A source text is a `Seq<char>`; positions are indices into it and lines are
//! counted from 1. [`step`] says what the one lexeme that begins at a position
//! is, and [`scan_from`] chains the steps up to the end of the text.
use super::error::{ErrorKind, LexError};
use super::token::{Literal, TokenType, TokenView};
use vstd::prelude::*;

verus! {

/// The decimal digits.
pub open spec fn digit(c: char) -> bool {
    '0' <= c && c <= '9'
}

/// The characters that can begin a word: the letters of ASCII and the
/// underscore.
pub open spec fn alpha(c: char) -> bool {
    ('a' <= c && c <= 'z') || ('A' <= c && c <= 'Z') || c == '_'
}

/// The characters that a word is made of.
pub open spec fn alpha_numeric(c: char) -> bool {
    alpha(c) || digit(c)
}

/// The number of newline characters of `src` at the positions `from..to`.
pub open spec fn newlines(src: Seq<char>, from: int, to: int) -> nat
    decreases to - from,
{
    if from >= to {
        0
    } else {
        newlines(src, from, to - 1) + if src[to - 1] == '\n' {
            1nat
        } else {
            0nat
        }
    }
}

/// The line on which `src` ends, the first line being line 1.
pub open spec fn line_count(src: Seq<char>) -> nat {
    1 + newlines(src, 0, src.len() as int)
}

/// Where the longest run of characters that satisfy `p` and that begins at
/// `i` ends: the first position from `i` on whose character does not satisfy
/// `p`, or the length of `src` if there is none.
pub open spec fn run_end(src: Seq<char>, i: int, p: spec_fn(char) -> bool) -> int
    decreases src.len() - i,
{
    if 0 <= i < src.len() && p(src[i]) {
        run_end(src, i + 1, p)
    } else {
        i
    }
}

/// Where the digits that begin at `i` end.
pub open spec fn digits_end(src: Seq<char>, i: int) -> int {
    run_end(src, i, |c: char| digit(c))
}

/// Where the letters, digits and underscores that begin at `i` end.
pub open spec fn word_end(src: Seq<char>, i: int) -> int {
    run_end(src, i, |c: char| alpha_numeric(c))
}

/// The position of the first newline from `i` on, or the length of `src`.
pub open spec fn line_end(src: Seq<char>, i: int) -> int {
    run_end(src, i, |c: char| c != '\n')
}

/// The position of the first double quote from `i` on, or the length of `src`.
pub open spec fn quote_from(src: Seq<char>, i: int) -> int {
    run_end(src, i, |c: char| c != '"')
}

/// The reserved words and the kind of token that each one is.
pub open spec fn keywords() -> Map<Seq<char>, TokenType> {
    Map::<Seq<char>, TokenType>::empty()
        .insert("and"@, TokenType::AND)
        .insert("class"@, TokenType::CLASS)
        .insert("else"@, TokenType::ELSE)
        .insert("false"@, TokenType::FALSE)
        .insert("for"@, TokenType::FOR)
        .insert("fun"@, TokenType::FUN)
        .insert("if"@, TokenType::IF)
        .insert("nil"@, TokenType::NIL)
        .insert("or"@, TokenType::OR)
        .insert("print"@, TokenType::PRINT)
        .insert("return"@, TokenType::RETURN)
        .insert("super"@, TokenType::SUPER)
        .insert("this"@, TokenType::THIS)
        .insert("true"@, TokenType::TRUE)
        .insert("var"@, TokenType::VAR)
        .insert("while"@, TokenType::WHILE)
}

/// The kind of a word: that of the reserved word it is, or `IDENTIFIER`.
pub open spec fn word_kind(word: Seq<char>) -> TokenType {
    if keywords().contains_key(word) {
        keywords()[word]
    } else {
        TokenType::IDENTIFIER
    }
}

/// The kind of the token that `c` is by itself, whatever follows it.
pub open spec fn punctuation(c: char) -> Option<TokenType> {
    if c == '(' {
        Some(TokenType::LEFT_PAREN)
    } else if c == ')' {
        Some(TokenType::RIGHT_PAREN)
    } else if c == '{' {
        Some(TokenType::LEFT_BRACE)
    } else if c == '}' {
        Some(TokenType::RIGHT_BRACE)
    } else if c == ',' {
        Some(TokenType::COMMA)
    } else if c == '.' {
        Some(TokenType::DOT)
    } else if c == '-' {
        Some(TokenType::MINUS)
    } else if c == '+' {
        Some(TokenType::PLUS)
    } else if c == ';' {
        Some(TokenType::SEMICOLON)
    } else if c == '*' {
        Some(TokenType::STAR)
    } else {
        None
    }
}

/// For a character that begins an operator of one or two characters: the kind
/// of the operator when `=` follows, and its kind when anything else does.
pub open spec fn operator(c: char) -> Option<(TokenType, TokenType)> {
    if c == '!' {
        Some((TokenType::BANG_EQUAL, TokenType::BANG))
    } else if c == '=' {
        Some((TokenType::EQUAL_EQUAL, TokenType::EQUAL))
    } else if c == '<' {
        Some((TokenType::LESS_EQUAL, TokenType::LESS))
    } else if c == '>' {
        Some((TokenType::GREATER_EQUAL, TokenType::GREATER))
    } else {
        None
    }
}

/// What one lexeme, or one piece of text that is none, contributes.
pub struct Step {
    /// The position just behind it.
    pub next: int,
    /// The line at that position.
    pub line: int,
    /// The token it is, if it is one.
    pub token: Option<TokenView>,
    /// The error it is, if it is one.
    pub error: Option<LexError>,
}

/// The token of kind `kind` whose text is `src` at `from..to`.
pub open spec fn lexeme(kind: TokenType, src: Seq<char>, from: int, to: int, line: int) -> Step {
    Step {
        next: to,
        line,
        token: Some(TokenView { kind, lexeme: src.subrange(from, to), literal: None, line }),
        error: None,
    }
}

/// Text that is passed over: white space, or a comment.
pub open spec fn blank(next: int, line: int) -> Step {
    Step { next, line, token: None, error: None }
}

/// An error of kind `kind`, found on `line`.
pub open spec fn mistake(kind: ErrorKind, next: int, line: int) -> Step {
    Step { next, line, token: None, error: Some(LexError { kind, line }) }
}

/// The operator at `i`, whose kind is `long` if `=` follows and `short` if not.
pub open spec fn operator_step(
    src: Seq<char>,
    i: int,
    line: int,
    long: TokenType,
    short: TokenType,
) -> Step {
    if i + 1 < src.len() && src[i + 1] == '=' {
        lexeme(long, src, i, i + 2, line)
    } else {
        lexeme(short, src, i, i + 1, line)
    }
}

/// The slash at `i`: with a second slash behind it, a comment that runs up to
/// the end of the line or of the text; else the division sign.
pub open spec fn slash_step(src: Seq<char>, i: int, line: int) -> Step {
    if i + 1 < src.len() && src[i + 1] == '/' {
        blank(line_end(src, i + 2), line)
    } else {
        lexeme(TokenType::SLASH, src, i, i + 1, line)
    }
}

/// The string literal whose opening quote is at `i`. It runs up to the next
/// quote, over newlines too; its value is the text between the quotes. Where
/// there is no next quote, the rest of the text is an error, found on the line
/// on which the text ends.
pub open spec fn string_step(src: Seq<char>, i: int, line: int) -> Step {
    let close: int = quote_from(src, i + 1);
    let line_then: int = line + newlines(src, i + 1, close);
    if close < src.len() {
        Step {
            next: close + 1,
            line: line_then,
            token: Some(
                TokenView {
                    kind: TokenType::STRING,
                    lexeme: src.subrange(i, close + 1),
                    literal: Some(Literal::Text(src.subrange(i + 1, close))),
                    line: line_then,
                },
            ),
            error: None,
        }
    } else {
        mistake(ErrorKind::UnterminatedString, close, line_then)
    }
}

/// Where the number literal that begins at `i` ends: behind its digits, or,
/// where a point and a digit follow them, behind the digits after the point.
pub open spec fn number_end(src: Seq<char>, i: int) -> int {
    let whole: int = digits_end(src, i);
    if whole + 1 < src.len() && src[whole] == '.' && digit(src[whole + 1]) {
        digits_end(src, whole + 1)
    } else {
        whole
    }
}

/// The number literal that begins at `i`. Its value is its own text.
pub open spec fn number_step(src: Seq<char>, i: int, line: int) -> Step {
    let end: int = number_end(src, i);
    Step {
        next: end,
        line,
        token: Some(
            TokenView {
                kind: TokenType::NUMBER,
                lexeme: src.subrange(i, end),
                literal: Some(Literal::Numeral(src.subrange(i, end))),
                line,
            },
        ),
        error: None,
    }
}

/// The word that begins at `i`: a reserved word or an identifier.
pub open spec fn word_step(src: Seq<char>, i: int, line: int) -> Step {
    let end: int = word_end(src, i);
    lexeme(word_kind(src.subrange(i, end)), src, i, end, line)
}

/// What begins at position `i` of `src`, a position inside `src`, on line
/// `line`.
pub open spec fn step(src: Seq<char>, i: int, line: int) -> Step
    recommends
        0 <= i < src.len(),
{
    let c: char = src[i];
    if c == ' ' || c == '\r' || c == '\t' {
        blank(i + 1, line)
    } else if c == '\n' {
        blank(i + 1, line + 1)
    } else if c == '/' {
        slash_step(src, i, line)
    } else if c == '"' {
        string_step(src, i, line)
    } else if digit(c) {
        number_step(src, i, line)
    } else if alpha(c) {
        word_step(src, i, line)
    } else if let Some(kind) = punctuation(c) {
        lexeme(kind, src, i, i + 1, line)
    } else if let Some(kinds) = operator(c) {
        operator_step(src, i, line, kinds.0, kinds.1)
    } else {
        mistake(ErrorKind::UnexpectedCharacter, i + 1, line)
    }
}

/// The token that closes every scan: of kind `EOF`, with no text.
pub open spec fn end_of_input(line: int) -> TokenView {
    TokenView { kind: TokenType::EOF, lexeme: Seq::empty(), literal: None, line }
}

/// The sequence of no element or of one.
pub open spec fn optional<T>(item: Option<T>) -> Seq<T> {
    match item {
        Some(x) => seq![x],
        None => Seq::empty(),
    }
}

/// What a scan yields.
pub struct Scan {
    /// The tokens, in the order of their lexemes, closed by the `EOF` token.
    pub tokens: Seq<TokenView>,
    /// The errors, in the order in which they were found.
    pub errors: Seq<LexError>,
    /// The line on which the text ends.
    pub line: int,
}

/// The scan of `src` from position `i`, on line `line`, to the end.
pub open spec fn scan_from(src: Seq<char>, i: int, line: int) -> Scan
    decreases src.len() - i,
{
    if 0 <= i < src.len() {
        let first: Step = step(src, i, line);
        proof {
            step_moves_on(src, i, line);
        }
        let rest: Scan = scan_from(src, first.next, first.line);
        Scan {
            tokens: optional(first.token) + rest.tokens,
            errors: optional(first.error) + rest.errors,
            line: rest.line,
        }
    } else {
        Scan { tokens: seq![end_of_input(line)], errors: Seq::empty(), line }
    }
}

/// The scan of the whole text `src`.
pub open spec fn scan(src: Seq<char>) -> Scan {
    scan_from(src, 0, 1)
}

/// A run ends inside the text, at or behind the position where it begins;
/// every character of it satisfies `p`, and the character behind it, if there
/// is one, does not.
pub proof fn run_is_longest(src: Seq<char>, i: int, p: spec_fn(char) -> bool)
    requires
        0 <= i <= src.len(),
    ensures
        i <= run_end(src, i, p) <= src.len(),
        forall|k: int| i <= k < run_end(src, i, p) ==> p(#[trigger] src[k]),
        run_end(src, i, p) < src.len() ==> !p(src[run_end(src, i, p)]),
    decreases src.len() - i,
{
    if i < src.len() && p(src[i]) {
        run_is_longest(src, i + 1, p);
    }
}

/// The newlines of a stretch of text are those of its two parts.
pub proof fn newlines_split(src: Seq<char>, from: int, mid: int, to: int)
    requires
        from <= mid <= to,
    ensures
        newlines(src, from, to) == newlines(src, from, mid) + newlines(src, mid, to),
    decreases to - mid,
{
    if mid < to {
        newlines_split(src, from, mid, to - 1);
    }
}

/// A stretch of one character holds one newline or none.
pub proof fn newlines_one(src: Seq<char>, i: int)
    ensures
        newlines(src, i, i + 1) == if src[i] == '\n' {
            1nat
        } else {
            0nat
        },
{
    assert(newlines(src, i, i) == 0);
}

/// A stretch without a newline character holds no newline.
pub proof fn newlines_none(src: Seq<char>, from: int, to: int)
    requires
        forall|k: int| from <= k < to ==> src[k] != '\n',
    ensures
        newlines(src, from, to) == 0,
    decreases to - from,
{
    if from < to {
        newlines_none(src, from, to - 1);
    }
}

/// Every step consumes at least one character and none beyond the text.
pub proof fn step_moves_on(src: Seq<char>, i: int, line: int)
    requires
        0 <= i < src.len(),
    ensures
        i < step(src, i, line).next <= src.len(),
{
    if i + 1 < src.len() {
        run_is_longest(src, i + 2, |c: char| c != '\n');
    }
    run_is_longest(src, i + 1, |c: char| c != '"');
    run_is_longest(src, i, |c: char| digit(c));
    let whole: int = digits_end(src, i);
    if whole < src.len() {
        run_is_longest(src, whole + 1, |c: char| digit(c));
    }
    run_is_longest(src, i, |c: char| alpha_numeric(c));
}

} // verus!
