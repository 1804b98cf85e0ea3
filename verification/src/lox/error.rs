use vstd::prelude::*;

verus! {

/// The two ways in which a piece of source text can fail to be a lexeme.
#[derive(Debug, Clone, Copy, PartialEq, Eq, Structural)]
pub enum ErrorKind {
    /// A character that begins no lexeme.
    UnexpectedCharacter,
    /// A string literal that is still open where the source ends.
    UnterminatedString,
}

impl ErrorKind {
    /// The words in which an error of this kind is reported.
    pub open spec fn wording(self) -> Seq<char> {
        match self {
            ErrorKind::UnexpectedCharacter => "Unexpected character."@,
            ErrorKind::UnterminatedString => "Unterminated string."@,
        }
    }

    /// The message of an error of this kind.
    pub fn message(&self) -> (msg: String)
        ensures
            msg@ == self.wording(),
    {
        match self {
            ErrorKind::UnexpectedCharacter => "Unexpected character.".to_string(),
            ErrorKind::UnterminatedString => "Unterminated string.".to_string(),
        }
    }
}

/// A lexical error as a mathematical value.
pub struct LexError {
    pub kind: ErrorKind,
    pub line: int,
}

/// A lexical error and the line on which it was found.
#[derive(Debug, Clone, Copy, PartialEq, Eq, Structural)]
pub struct ScanError {
    pub kind: ErrorKind,
    pub line: u32,
}

impl View for ScanError {
    type V = LexError;

    open spec fn view(&self) -> LexError {
        LexError { kind: self.kind, line: self.line as int }
    }
}

impl DeepView for ScanError {
    type V = LexError;

    open spec fn deep_view(&self) -> LexError {
        self@
    }
}

} // verus!
