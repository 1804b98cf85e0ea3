use super::error::{ErrorKind, LexError, ScanError};
use super::grammar::{
    alpha, alpha_numeric, digit, digits_end, end_of_input, keywords, line_count, line_end,
    newlines, newlines_split, number_step, optional, quote_from, scan_from, step, step_moves_on,
    string_step, word_end, word_step, Scan, Step,
};
use super::token::{literal_view, Object, Token, TokenType, TokenView};
use vstd::hash_map::StringHashMap;
use vstd::prelude::*;

verus! {

/// Taken on trust from the standard library: `String::push` appends the one
/// character `c` to the end of the string and leaves what was there as it is.
pub assume_specification[ String::push ](s: &mut String, c: char)
    ensures
        final(s)@ == old(s)@.push(c),
;

/// The characters of `text`, in order.
fn chars_of(text: &str) -> (chars: Vec<char>)
    ensures
        chars@ == text@,
{
    let mut chars: Vec<char> = Vec::new();
    for c in it: text.chars()
        invariant
            chars@ == it.seq().take(it.index()),
    {
        chars.push(c);
    }
    chars
}

/// Turns a source text into tokens, one lexeme at a time. `new` makes a
/// scanner for a text, `scan_tokens` hands out the tokens of the text, and
/// `errors` tells what in the text was no token.
pub struct Scanner {
    source: Vec<char>,
    tokens: Vec<Token>,
    errors: Vec<ScanError>,
    keywords: StringHashMap<TokenType>,
    // location trackers
    start: usize,
    current: usize,
    line: u32,
}

/// A scanner as a mathematical value.
pub struct ScannerView {
    /// The text being scanned.
    pub source: Seq<char>,
    /// The tokens found and not yet handed out.
    pub tokens: Seq<TokenView>,
    /// The errors found so far.
    pub errors: Seq<LexError>,
    /// The position of the next character to examine.
    pub current: int,
    /// The line at that position.
    pub line: int,
}

impl ScannerView {
    /// The scanner at the beginning of `source`, with nothing found yet.
    pub open spec fn fresh(source: Seq<char>) -> ScannerView {
        ScannerView { source, tokens: Seq::empty(), errors: Seq::empty(), current: 0, line: 1 }
    }

    /// The scan of what lies ahead of the cursor.
    pub open spec fn ahead(self) -> Scan {
        scan_from(self.source, self.current, self.line)
    }

    /// The tokens that scanning to the end hands out: those found before, then
    /// those ahead.
    pub open spec fn handed_out(self) -> Seq<TokenView> {
        self.tokens + self.ahead().tokens
    }

    /// The scanner after scanning to the end: at the end of the source, on its
    /// last line, holding no token and every error found.
    pub open spec fn finished(self) -> ScannerView {
        ScannerView {
            source: self.source,
            tokens: Seq::empty(),
            errors: self.errors + self.ahead().errors,
            current: self.source.len() as int,
            line: self.ahead().line,
        }
    }
}

impl View for Scanner {
    type V = ScannerView;

    closed spec fn view(&self) -> ScannerView {
        ScannerView {
            source: self.source@,
            tokens: self.tokens.deep_view(),
            errors: self.errors.deep_view(),
            current: self.current as int,
            line: self.line as int,
        }
    }
}

impl Scanner {
    /// The cursors lie inside the text, the keyword table is the language's,
    /// and the line counter has room for every newline still ahead.
    pub closed spec fn wf(&self) -> bool {
        &&& self.start <= self.current <= self.source.len()
        &&& self.keywords@ == keywords()
        &&& self.line >= 1
        &&& self.line + newlines(self.source@, self.current as int, self.source.len() as int)
            <= u32::MAX
    }

    /// A scanner at the beginning of `source`. The lines of `source` must be
    /// few enough for the line counter.
    pub fn new(source: String) -> (scanner: Self)
        requires
            line_count(source@) <= u32::MAX,
        ensures
            scanner.wf(),
            scanner@ == ScannerView::fresh(source@),
    {
        let scanner = Self {
            source: chars_of(source.as_str()),
            tokens: Vec::<Token>::new(),
            errors: Vec::<ScanError>::new(),
            keywords: Self::init_keywords(),
            start: 0,
            current: 0,
            line: 1,
        };
        assert(scanner.tokens.deep_view() =~= Seq::empty());
        assert(scanner.errors.deep_view() =~= Seq::empty());
        scanner
    }

    /// The table of the reserved words.
    fn init_keywords() -> (kw: StringHashMap<TokenType>)
        ensures
            kw@ == keywords(),
    {
        let mut kw = StringHashMap::new();
        kw.insert("and".to_string(), TokenType::AND);
        kw.insert("class".to_string(), TokenType::CLASS);
        kw.insert("else".to_string(), TokenType::ELSE);
        kw.insert("false".to_string(), TokenType::FALSE);
        kw.insert("for".to_string(), TokenType::FOR);
        kw.insert("fun".to_string(), TokenType::FUN);
        kw.insert("if".to_string(), TokenType::IF);
        kw.insert("nil".to_string(), TokenType::NIL);
        kw.insert("or".to_string(), TokenType::OR);
        kw.insert("print".to_string(), TokenType::PRINT);
        kw.insert("return".to_string(), TokenType::RETURN);
        kw.insert("super".to_string(), TokenType::SUPER);
        kw.insert("this".to_string(), TokenType::THIS);
        kw.insert("true".to_string(), TokenType::TRUE);
        kw.insert("var".to_string(), TokenType::VAR);
        kw.insert("while".to_string(), TokenType::WHILE);
        kw
    }

    /// Scans the rest of the source. The tokens found by this and by earlier
    /// steps are handed out, closed by one `EOF` token on the line on which
    /// the source ends; the errors found are added to those of the scanner.
    pub fn scan_tokens(&mut self) -> (tokens: Vec<Token>)
        requires
            old(self).wf(),
        ensures
            final(self).wf(),
            tokens.deep_view() == old(self)@.handed_out(),
            final(self)@ == old(self)@.finished(),
            tokens.len() >= 1,
            tokens.deep_view().last() == end_of_input(final(self)@.line),
    {
        let ghost whole = old(self)@.ahead();
        while !self.is_end()
            invariant
                self.wf(),
                self.source == old(self).source,
                self.tokens.deep_view() + scan_from(
                    self.source@,
                    self.current as int,
                    self.line as int,
                ).tokens == old(self).tokens.deep_view() + whole.tokens,
                self.errors.deep_view() + scan_from(
                    self.source@,
                    self.current as int,
                    self.line as int,
                ).errors == old(self).errors.deep_view() + whole.errors,
                scan_from(self.source@, self.current as int, self.line as int).line == whole.line,
            decreases self.source.len() - self.current,
        {
            let ghost before = *self;
            // We are at the beginning of the next lexeme.
            self.start = self.current;
            self.scan_token();
            proof {
                step_moves_on(before.source@, before.current as int, before.line as int);
            }
        }
        self.tokens.push(Token::token(TokenType::EOF, String::new(), None, self.line));
        let mut tokens: Vec<Token> = Vec::new();
        std::mem::swap(&mut tokens, &mut self.tokens);
        proof {
            assert(self.tokens.deep_view() =~= Seq::empty());
        }
        tokens
    }

    /// The errors found so far, in the order in which they were found.
    pub fn errors(&self) -> (errors: &Vec<ScanError>)
        ensures
            errors.deep_view() == self@.errors,
    {
        &self.errors
    }

    /// Whether any error was found so far.
    pub fn had_error(&self) -> (failed: bool)
        ensures
            failed == (self@.errors.len() > 0),
    {
        self.errors.len() > 0
    }

    /// Whether the lines of `source` are few enough for the line counter, so
    /// that a scanner can be made for it.
    pub fn fits(source: &str) -> (ok: bool)
        ensures
            ok == (line_count(source@) <= u32::MAX),
    {
        let mut line: u32 = 1;
        for c in it: source.chars()
            invariant
                it.seq() == source@,
                line == 1 + newlines(source@, 0, it.index() as int),
        {
            if c == '\n' {
                if line == u32::MAX {
                    proof {
                        newlines_split(
                            source@,
                            0,
                            it.index() + 1,
                            source@.len() as int,
                        );
                    }
                    return false;
                }
                line += 1;
            }
        }
        true
    }

    /// Whether the cursor is behind the last character.
    fn is_end(&self) -> (end: bool)
        ensures
            end == (self.current >= self.source.len()),
    {
        self.current >= self.source.len()
    }

    /// Consumes the character at the cursor and returns it.
    fn advance(&mut self) -> (c: char)
        requires
            old(self).current < old(self).source.len(),
        ensures
            c == old(self).source[old(self).current as int],
            *final(self) == (Scanner { current: (old(self).current + 1) as usize, ..*old(self) }),
    {
        let c = self.source[self.current];
        self.current += 1;
        c
    }

    /// Consumes the character at the cursor if it is `expected`, and says
    /// whether it did.
    fn mmatch(&mut self, expected: char) -> (hit: bool)
        ensures
            hit == (old(self).current < old(self).source.len() && old(self).source[old(
                self,
            ).current as int] == expected),
            hit ==> *final(self) == (Scanner {
                current: (old(self).current + 1) as usize,
                ..*old(self)
            }),
            !hit ==> *final(self) == *old(self),
    {
        if self.is_end() {
            return false;
        }
        if self.source[self.current] != expected {
            return false;
        }
        self.current += 1;
        return true;
    }

    /// The character at the cursor, or NUL behind the end of the text.
    fn peek(&self) -> (c: char)
        ensures
            c == if self.current < self.source.len() {
                self.source[self.current as int]
            } else {
                '\0'
            },
    {
        if self.is_end() {
            return '\0';
        }
        self.source[self.current]
    }

    /// The character behind the one at the cursor, or NUL where there is none.
    fn peek_next(&self) -> (c: char)
        ensures
            c == if self.current + 1 < self.source.len() {
                self.source[self.current + 1]
            } else {
                '\0'
            },
    {
        if self.is_end() || self.current + 1 >= self.source.len() {
            return '\0';
        }
        self.source[self.current + 1]
    }

    fn is_alpha(c: char) -> (b: bool)
        ensures
            b == alpha(c),
    {
        (c >= 'a' && c <= 'z') || (c >= 'A' && c <= 'Z') || c == '_'
    }

    fn is_alpha_numeric(c: char) -> (b: bool)
        ensures
            b == alpha_numeric(c),
    {
        Self::is_alpha(c) || Self::is_digit(c)
    }

    fn is_digit(c: char) -> (b: bool)
        ensures
            b == digit(c),
    {
        c >= '0' && c <= '9'
    }

    /// The text of the source at `from..to`.
    fn text(&self, from: usize, to: usize) -> (s: String)
        requires
            from <= to <= self.source.len(),
        ensures
            s@ == self.source@.subrange(from as int, to as int),
    {
        let mut s = String::new();
        let mut i: usize = from;
        while i < to
            invariant
                from <= i <= to <= self.source.len(),
                s@ == self.source@.subrange(from as int, i as int),
            decreases to - i,
        {
            s.push(self.source[i]);
            i += 1;
        }
        s
    }

    /// `self` is what `pre` becomes by the step `s`.
    spec fn follows(&self, pre: &Scanner, s: Step) -> bool {
        &&& self.source == pre.source
        &&& self.keywords == pre.keywords
        &&& self.start == pre.start
        &&& self.current == s.next
        &&& self.line == s.line
        &&& self.tokens.deep_view() == pre.tokens.deep_view() + optional(s.token)
        &&& self.errors.deep_view() == pre.errors.deep_view() + optional(s.error)
    }

    /// Adds the token of kind `ttype`, without a value, whose text lies
    /// between the two cursors.
    fn add_token_1(&mut self, ttype: TokenType)
        requires
            old(self).start <= old(self).current <= old(self).source.len(),
        ensures
            final(self).tokens.deep_view() == old(self).tokens.deep_view().push(
                TokenView {
                    kind: ttype,
                    lexeme: old(self).source@.subrange(
                        old(self).start as int,
                        old(self).current as int,
                    ),
                    literal: None,
                    line: old(self).line as int,
                },
            ),
            *final(self) == (Scanner { tokens: final(self).tokens, ..*old(self) }),
    {
        self.add_token_2(ttype, None);
    }

    /// Adds the token of kind `ttype` and value `literal` whose text lies
    /// between the two cursors.
    fn add_token_2(&mut self, ttype: TokenType, literal: Option<Object>)
        requires
            old(self).start <= old(self).current <= old(self).source.len(),
        ensures
            final(self).tokens.deep_view() == old(self).tokens.deep_view().push(
                TokenView {
                    kind: ttype,
                    lexeme: old(self).source@.subrange(
                        old(self).start as int,
                        old(self).current as int,
                    ),
                    literal: literal_view(literal),
                    line: old(self).line as int,
                },
            ),
            *final(self) == (Scanner { tokens: final(self).tokens, ..*old(self) }),
    {
        let text = self.text(self.start, self.current);
        self.tokens.push(Token::token(ttype, text, literal, self.line));
    }

    /// Records an error of kind `kind` on the current line.
    fn add_error(&mut self, kind: ErrorKind)
        ensures
            final(self).errors.deep_view() == old(self).errors.deep_view().push(
                LexError { kind, line: old(self).line as int },
            ),
            *final(self) == (Scanner { errors: final(self).errors, ..*old(self) }),
    {
        self.errors.push(ScanError { kind, line: self.line });
    }

    /// Scans the one lexeme, or the piece of text that is none, at the cursor.
    fn scan_token(&mut self)
        requires
            old(self).wf(),
            old(self).start == old(self).current,
            old(self).current < old(self).source.len(),
        ensures
            final(self).wf(),
            final(self).follows(
                old(self),
                step(old(self).source@, old(self).current as int, old(self).line as int),
            ),
    {
        proof {
            newlines_split(
                self.source@,
                self.current as int,
                self.current + 1,
                self.source.len() as int,
            );
        }
        let c = self.advance();
        match c {
            // 1 char operators
            '(' => self.add_token_1(TokenType::LEFT_PAREN),
            ')' => self.add_token_1(TokenType::RIGHT_PAREN),
            '{' => self.add_token_1(TokenType::LEFT_BRACE),
            '}' => self.add_token_1(TokenType::RIGHT_BRACE),
            ',' => self.add_token_1(TokenType::COMMA),
            '.' => self.add_token_1(TokenType::DOT),
            '-' => self.add_token_1(TokenType::MINUS),
            '+' => self.add_token_1(TokenType::PLUS),
            ';' => self.add_token_1(TokenType::SEMICOLON),
            '*' => self.add_token_1(TokenType::STAR),
            // 2 char operators
            '!' => {
                let op = if self.mmatch('=') {
                    TokenType::BANG_EQUAL
                } else {
                    TokenType::BANG
                };
                self.add_token_1(op);
            },
            '=' => {
                let op = if self.mmatch('=') {
                    TokenType::EQUAL_EQUAL
                } else {
                    TokenType::EQUAL
                };
                self.add_token_1(op);
            },
            '<' => {
                let op = if self.mmatch('=') {
                    TokenType::LESS_EQUAL
                } else {
                    TokenType::LESS
                };
                self.add_token_1(op);
            },
            '>' => {
                let op = if self.mmatch('=') {
                    TokenType::GREATER_EQUAL
                } else {
                    TokenType::GREATER
                };
                self.add_token_1(op);
            },
            // '/' or comment?
            '/' => {
                if self.mmatch('/') {
                    // A comment goes until the end of the line.
                    while self.peek() != '\n' && !self.is_end()
                        invariant
                            *self == (Scanner { current: self.current, ..*old(self) }),
                            self.start + 2 <= self.current <= self.source.len(),
                            line_end(self.source@, self.current as int) == line_end(
                                self.source@,
                                self.start + 2,
                            ),
                        decreases self.source.len() - self.current,
                    {
                        self.advance();
                    }
                } else {
                    self.add_token_1(TokenType::SLASH);
                }
            },
            // white space
            ' ' | '\r' | '\t' => (),
            '\n' => {
                self.line += 1;
            },
            // string literals
            '"' => self.string(),
            _ => if Self::is_digit(c) {
                self.number();
            } else if Self::is_alpha(c) {
                self.identifier();
            } else {
                self.add_error(ErrorKind::UnexpectedCharacter);
            },
        }
        proof {
            let s = step(old(self).source@, old(self).current as int, old(self).line as int);
            step_moves_on(old(self).source@, old(self).current as int, old(self).line as int);
            newlines_split(
                self.source@,
                old(self).current + 1,
                self.current as int,
                self.source.len() as int,
            );
            assert(self.tokens.deep_view() =~= old(self).tokens.deep_view() + optional(s.token));
            assert(self.errors.deep_view() =~= old(self).errors.deep_view() + optional(s.error));
        }
    }

    /// Scans the rest of the word whose first character was just consumed.
    fn identifier(&mut self)
        requires
            old(self).wf(),
            old(self).start + 1 == old(self).current,
            alpha(old(self).source[old(self).start as int]),
        ensures
            final(self).wf(),
            final(self).follows(
                old(self),
                word_step(old(self).source@, old(self).start as int, old(self).line as int),
            ),
    {
        while Self::is_alpha_numeric(self.peek())
            invariant
                *self == (Scanner { current: self.current, ..*old(self) }),
                self.start < self.current <= self.source.len(),
                word_end(self.source@, self.current as int) == word_end(
                    self.source@,
                    self.start as int,
                ),
            decreases self.source.len() - self.current,
        {
            self.advance();
        }

        let id = self.text(self.start, self.current);
        let ttype = match self.keywords.get(id.as_str()) {
            Some(ttype) => *ttype,
            None => TokenType::IDENTIFIER,
        };
        self.add_token_1(ttype);
        proof {
            newlines_split(
                self.source@,
                old(self).current as int,
                self.current as int,
                self.source.len() as int,
            );
            assert(self.tokens.deep_view() =~= old(self).tokens.deep_view() + optional(
                word_step(self.source@, self.start as int, self.line as int).token,
            ));
        }
    }

    /// Scans the rest of the number whose first digit was just consumed.
    fn number(&mut self)
        requires
            old(self).wf(),
            old(self).start + 1 == old(self).current,
            digit(old(self).source[old(self).start as int]),
        ensures
            final(self).wf(),
            final(self).follows(
                old(self),
                number_step(old(self).source@, old(self).start as int, old(self).line as int),
            ),
    {
        while Self::is_digit(self.peek())
            invariant
                *self == (Scanner { current: self.current, ..*old(self) }),
                self.start < self.current <= self.source.len(),
                digits_end(self.source@, self.current as int) == digits_end(
                    self.source@,
                    self.start as int,
                ),
            decreases self.source.len() - self.current,
        {
            self.advance();
        }

        // Look for a fractional part.
        if self.peek() == '.' && Self::is_digit(self.peek_next()) {
            // Consume the "."
            self.advance();

            while Self::is_digit(self.peek())
                invariant
                    *self == (Scanner { current: self.current, ..*old(self) }),
                    self.start < self.current <= self.source.len(),
                    digits_end(self.source@, self.current as int) == digits_end(
                        self.source@,
                        digits_end(self.source@, self.start as int) + 1,
                    ),
                decreases self.source.len() - self.current,
            {
                self.advance();
            }
        }

        let numeral = self.text(self.start, self.current);
        self.add_token_2(TokenType::NUMBER, Some(Object::flt_lit(numeral)));
        proof {
            newlines_split(
                self.source@,
                old(self).current as int,
                self.current as int,
                self.source.len() as int,
            );
            assert(self.tokens.deep_view() =~= old(self).tokens.deep_view() + optional(
                number_step(self.source@, self.start as int, self.line as int).token,
            ));
        }
    }

    /// Scans the rest of the string whose opening quote was just consumed.
    fn string(&mut self)
        requires
            old(self).wf(),
            old(self).start + 1 == old(self).current,
        ensures
            final(self).wf(),
            final(self).follows(
                old(self),
                string_step(old(self).source@, old(self).start as int, old(self).line as int),
            ),
    {
        while self.peek() != '"' && !self.is_end()
            invariant
                *self == (Scanner { current: self.current, line: self.line, ..*old(self) }),
                self.start < self.current <= self.source.len(),
                quote_from(self.source@, self.current as int) == quote_from(
                    self.source@,
                    self.start + 1,
                ),
                self.line == old(self).line + newlines(
                    self.source@,
                    self.start + 1,
                    self.current as int,
                ),
                self.line + newlines(
                    self.source@,
                    self.current as int,
                    self.source.len() as int,
                ) <= u32::MAX,
            decreases self.source.len() - self.current,
        {
            proof {
                newlines_split(
                    self.source@,
                    self.current as int,
                    self.current + 1,
                    self.source.len() as int,
                );
            }
            if self.peek() == '\n' {
                self.line += 1;
            }
            self.advance();
        }

        if self.is_end() {
            self.add_error(ErrorKind::UnterminatedString);
            proof {
                assert(self.errors.deep_view() =~= old(self).errors.deep_view() + optional(
                    string_step(self.source@, self.start as int, old(self).line as int).error,
                ));
            }
            return;
        }
        proof {
            newlines_split(
                self.source@,
                self.current as int,
                self.current + 1,
                self.source.len() as int,
            );
        }

        // The closing ".
        self.advance();

        // Trim the surrounding quotes.
        let value = self.text(self.start + 1, self.current - 1);
        self.add_token_2(TokenType::STRING, Some(Object::str_lit(value)));
        proof {
            assert(self.tokens.deep_view() =~= old(self).tokens.deep_view() + optional(
                string_step(self.source@, self.start as int, old(self).line as int).token,
            ));
        }
    }
}

} // verus!
