use vstd::prelude::*;

verus! {

/// The kinds of token of the language.
#[allow(non_camel_case_types)]
#[derive(Debug, Clone, Copy, PartialEq, Eq, Structural)]
pub enum TokenType {
    // Single-character tokens.
    LEFT_PAREN,
    RIGHT_PAREN,
    LEFT_BRACE,
    RIGHT_BRACE,
    COMMA,
    DOT,
    MINUS,
    PLUS,
    SEMICOLON,
    SLASH,
    STAR,
    // One or two character tokens.
    BANG,
    BANG_EQUAL,
    EQUAL,
    EQUAL_EQUAL,
    GREATER,
    GREATER_EQUAL,
    LESS,
    LESS_EQUAL,
    // Literals.
    IDENTIFIER,
    STRING,
    NUMBER,
    // Keywords.
    AND,
    CLASS,
    ELSE,
    FALSE,
    FUN,
    FOR,
    IF,
    NIL,
    OR,
    PRINT,
    RETURN,
    SUPER,
    THIS,
    TRUE,
    VAR,
    WHILE,
    EOF,
}

/// What a literal token stands for, as a mathematical value.
pub enum Literal {
    /// The characters between the quotes of a string literal, taken verbatim.
    Text(Seq<char>),
    /// The decimal numeral of a number literal: digits, optionally followed by
    /// a point and more digits.
    Numeral(Seq<char>),
}

/// The value that a literal token carries.
#[allow(non_camel_case_types)]
#[derive(Debug, Clone, PartialEq, Eq)]
pub enum Object {
    /// The contents of a string literal, without the quotes.
    str_lit(String),
    /// A number literal, kept as the decimal numeral that was written, so that
    /// no digit is lost.
    flt_lit(String),
}

impl View for Object {
    type V = Literal;

    open spec fn view(&self) -> Literal {
        match self {
            Object::str_lit(s) => Literal::Text(s@),
            Object::flt_lit(s) => Literal::Numeral(s@),
        }
    }
}

/// The value of an optional literal.
pub open spec fn literal_view(literal: Option<Object>) -> Option<Literal> {
    match literal {
        Some(value) => Some(value@),
        None => None,
    }
}

/// A token as a mathematical value.
pub struct TokenView {
    pub kind: TokenType,
    pub lexeme: Seq<char>,
    pub literal: Option<Literal>,
    pub line: int,
}

/// One lexeme of the source: its kind, its text exactly as written, the value
/// of a literal, and the line on which it ends.
#[derive(Debug, Clone, PartialEq, Eq)]
pub struct Token {
    pub ttype: TokenType,
    pub lexeme: String,
    pub literal: Option<Object>,
    pub line: u32,
}

impl View for Token {
    type V = TokenView;

    open spec fn view(&self) -> TokenView {
        TokenView {
            kind: self.ttype,
            lexeme: self.lexeme@,
            literal: literal_view(self.literal),
            line: self.line as int,
        }
    }
}

impl DeepView for Token {
    type V = TokenView;

    open spec fn deep_view(&self) -> TokenView {
        self@
    }
}

impl Token {
    /// The token made of these four parts.
    pub fn token(ttype: TokenType, lexeme: String, literal: Option<Object>, line: u32) -> (t: Self)
        ensures
            t.ttype == ttype,
            t.lexeme == lexeme,
            t.literal == literal,
            t.line == line,
    {
        Self { ttype, lexeme, literal, line }
    }
}

} // verus!
