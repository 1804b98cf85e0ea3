//! What holds of every scan, proved from the grammar.
use super::grammar::{
    alpha, alpha_numeric, digit, digits_end, end_of_input, line_count, newlines, newlines_none,
    newlines_one, newlines_split, number_end, operator, quote_from, run_is_longest, scan,
    scan_from, step, step_moves_on, word_kind, Scan, Step,
};
use super::scanner::ScannerView;
use super::token::{TokenType, TokenView};
use vstd::prelude::*;

verus! {

/// No word is of kind `EOF`: a word is an identifier or a reserved word.
pub proof fn word_is_not_eof(word: Seq<char>)
    ensures
        word_kind(word) != TokenType::EOF,
{
}

/// The token of a step has the text that the step consumed, and is never the
/// `EOF` token.
pub proof fn token_is_source_text(src: Seq<char>, i: int, line: int)
    requires
        0 <= i < src.len(),
    ensures
        step(src, i, line).token matches Some(token) ==> {
            &&& token.lexeme == src.subrange(i, step(src, i, line).next)
            &&& token.kind != TokenType::EOF
            &&& token.line == step(src, i, line).line
        },
{
}

/// Every scan ends with the `EOF` token, which has no text and stands on the
/// line on which the source ends; no token before it is an `EOF` token.
pub proof fn scan_ends_with_eof(src: Seq<char>, i: int, line: int)
    ensures
        scan_from(src, i, line).tokens.len() >= 1,
        scan_from(src, i, line).tokens.last() == end_of_input(scan_from(src, i, line).line),
        forall|k: int|
            0 <= k < scan_from(src, i, line).tokens.len() - 1 ==> (#[trigger] scan_from(
                src,
                i,
                line,
            ).tokens[k]).kind != TokenType::EOF,
    decreases src.len() - i,
{
    if 0 <= i < src.len() {
        let first: Step = step(src, i, line);
        step_moves_on(src, i, line);
        scan_ends_with_eof(src, first.next, first.line);
    }
}

/// A step moves the line on by the number of newlines that it consumes: the
/// line changes with a newline character and with nothing else.
pub proof fn step_counts_newlines(src: Seq<char>, i: int, line: int)
    requires
        0 <= i < src.len(),
    ensures
        step(src, i, line).line == line + newlines(src, i, step(src, i, line).next),
{
    let c: char = src[i];
    let next: int = step(src, i, line).next;
    newlines_one(src, i);
    if c == '"' {
        run_is_longest(src, i + 1, |c: char| c != '"');
        newlines_split(src, i, i + 1, next);
    } else if c == '/' {
        if i + 1 < src.len() && src[i + 1] == '/' {
            run_is_longest(src, i + 2, |c: char| c != '\n');
            newlines_none(src, i, next);
        }
    } else if digit(c) {
        let whole: int = digits_end(src, i);
        run_is_longest(src, i, |c: char| digit(c));
        if whole < src.len() {
            run_is_longest(src, whole + 1, |c: char| digit(c));
        }
        newlines_none(src, i, next);
    } else if alpha(c) {
        run_is_longest(src, i, |c: char| alpha_numeric(c));
        newlines_none(src, i, next);
    }
}

/// A scan ends on the line on which it began plus the number of newlines
/// ahead of it.
pub proof fn scan_counts_newlines(src: Seq<char>, i: int, line: int)
    requires
        0 <= i <= src.len(),
    ensures
        scan_from(src, i, line).line == line + newlines(src, i, src.len() as int),
    decreases src.len() - i,
{
    if i < src.len() {
        let first: Step = step(src, i, line);
        step_moves_on(src, i, line);
        step_counts_newlines(src, i, line);
        scan_counts_newlines(src, first.next, first.line);
        newlines_split(src, i, first.next, src.len() as int);
    }
}

/// The `EOF` token of the scan of a whole text stands on the last line of the
/// text.
pub proof fn scan_ends_on_last_line(src: Seq<char>)
    ensures
        scan(src).line == line_count(src),
        scan(src).tokens.last().line == line_count(src),
{
    scan_counts_newlines(src, 0, 1);
    scan_ends_with_eof(src, 0, 1);
}

/// The token `token` has text that stands in `src` from position `from` on,
/// and a line from `first_line` to `last_line`.
pub open spec fn lies_in(
    token: TokenView,
    src: Seq<char>,
    from: int,
    first_line: int,
    last_line: int,
) -> bool {
    &&& first_line <= token.line <= last_line
    &&& exists|a: int, b: int|
        from <= a < b <= src.len() && #[trigger] src.subrange(a, b) == token.lexeme
}

/// Every token of a scan but the closing `EOF` has a text that is not empty
/// and stands in the source as it is, and a line between the line on which
/// the scan began and the line on which it ended.
pub proof fn tokens_lie_in_the_source(src: Seq<char>, i: int, line: int)
    requires
        0 <= i <= src.len(),
    ensures
        forall|k: int|
            0 <= k < scan_from(src, i, line).tokens.len() - 1 ==> lies_in(
                #[trigger] scan_from(src, i, line).tokens[k],
                src,
                i,
                line,
                scan_from(src, i, line).line,
            ),
    decreases src.len() - i,
{
    if i < src.len() {
        let first: Step = step(src, i, line);
        let rest: Scan = scan_from(src, first.next, first.line);
        let all: Scan = scan_from(src, i, line);
        step_moves_on(src, i, line);
        step_counts_newlines(src, i, line);
        scan_counts_newlines(src, first.next, first.line);
        token_is_source_text(src, i, line);
        tokens_lie_in_the_source(src, first.next, first.line);
        assert forall|k: int| 0 <= k < all.tokens.len() - 1 implies lies_in(
            #[trigger] all.tokens[k],
            src,
            i,
            line,
            all.line,
        ) by {
            if first.token is Some && k == 0 {
                assert(src.subrange(i, first.next) == all.tokens[k].lexeme);
            } else {
                let j: int = if first.token is Some {
                    k - 1
                } else {
                    k
                };
                assert(all.tokens[k] == rest.tokens[j]);
                assert(lies_in(rest.tokens[j], src, first.next, first.line, rest.line));
                let (a, b): (int, int) = choose|a: int, b: int|
                    first.next <= a < b <= src.len() && #[trigger] src.subrange(a, b)
                        == rest.tokens[j].lexeme;
                assert(src.subrange(a, b) == all.tokens[k].lexeme);
            }
        }
    }
}

/// A string literal that is closed moves the line on by the number of
/// newlines between its quotes, and stands on the line of its closing quote.
pub proof fn string_counts_its_newlines(src: Seq<char>, i: int, line: int)
    requires
        0 <= i < src.len(),
        src[i] == '"',
        quote_from(src, i + 1) < src.len(),
    ensures
        step(src, i, line).next == quote_from(src, i + 1) + 1,
        step(src, i, line).line == line + newlines(src, i + 1, quote_from(src, i + 1)),
        step(src, i, line).token matches Some(token) && token.kind == TokenType::STRING
            && token.line == step(src, i, line).line,
{
}

/// Longest match for operators: where `=` follows a character that begins an
/// operator, the two are one token.
pub proof fn operator_takes_its_equals_sign(src: Seq<char>, i: int, line: int)
    requires
        0 <= i,
        i + 1 < src.len(),
        operator(src[i]) is Some,
        src[i + 1] == '=',
    ensures
        step(src, i, line).next == i + 2,
        operator(src[i]) matches Some(kinds) && step(src, i, line).token matches Some(token)
            && token.kind == kinds.0,
{
}

/// Longest match for words: a word token takes every letter, digit and
/// underscore that follows its first character.
pub proof fn word_is_longest(src: Seq<char>, i: int, line: int)
    requires
        0 <= i < src.len(),
        alpha(src[i]),
    ensures
        forall|k: int| i <= k < step(src, i, line).next ==> alpha_numeric(#[trigger] src[k]),
        step(src, i, line).next < src.len() ==> !alpha_numeric(src[step(src, i, line).next]),
{
    run_is_longest(src, i, |c: char| alpha_numeric(c));
}

/// Longest match for numbers: a number token is digits, with at most one point
/// among them, where its first run of digits ends; no digit follows it, and a
/// point with a digit behind it follows it only where it has a point already.
pub proof fn number_is_longest(src: Seq<char>, i: int, line: int)
    requires
        0 <= i < src.len(),
        digit(src[i]),
    ensures
        step(src, i, line).next == number_end(src, i),
        forall|k: int|
            i <= k < number_end(src, i) ==> digit(#[trigger] src[k]) || (src[k] == '.' && k
                == digits_end(src, i)),
        number_end(src, i) < src.len() ==> !digit(src[number_end(src, i)]),
        number_end(src, i) + 1 < src.len() && src[number_end(src, i)] == '.' && digit(
            src[number_end(src, i) + 1],
        ) ==> number_end(src, i) > digits_end(src, i),
{
    let whole: int = digits_end(src, i);
    run_is_longest(src, i, |c: char| digit(c));
    if whole < src.len() {
        run_is_longest(src, whole + 1, |c: char| digit(c));
    }
}

/// A scan of a text from its beginning yields the tokens and the errors of
/// the text, and nothing else.
pub proof fn fresh_scan_is_the_scan_of_the_text(src: Seq<char>)
    ensures
        ScannerView::fresh(src).handed_out() == scan(src).tokens,
        ScannerView::fresh(src).finished().errors == scan(src).errors,
        ScannerView::fresh(src).finished().line == line_count(src),
{
    scan_ends_on_last_line(src);
}

/// Two scans of the same text, each from its beginning, yield the same tokens
/// and the same errors and end in the same state: those of the text, whatever
/// was scanned before.
pub proof fn scanning_twice_gives_the_same(
    src: Seq<char>,
    first: ScannerView,
    second: ScannerView,
)
    requires
        first == ScannerView::fresh(src),
        second == ScannerView::fresh(src),
    ensures
        first.handed_out() == second.handed_out(),
        first.finished() == second.finished(),
        second.handed_out() == scan(src).tokens,
        second.finished().errors == scan(src).errors,
{
}

/// A scanner that has scanned to the end has nothing left to find: scanning
/// again hands out the `EOF` token alone and leaves the scanner as it is.
pub proof fn scanning_on_after_the_end(scanner: ScannerView)
    ensures
        scanner.finished().handed_out() == seq![end_of_input(scanner.finished().line)],
        scanner.finished().finished() == scanner.finished(),
{
}

} // verus!
