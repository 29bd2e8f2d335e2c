//! Lexical error reports.
//!
//! Malformed input never aborts a scan. Each recoverable error is recorded
//! as a `Diagnostic` in a collection owned by the scanner and handed to the
//! caller, which decides what to print and how to terminate. This keeps the
//! scanner's error behavior a pure function of its input.

use vstd::prelude::*;

verus! {

/// The closed set of recoverable lexical errors.
#[derive(Clone, Copy, Debug, PartialEq, Eq, Structural)]
pub enum ErrorKind {
    UnexpectedCharacter,
    UnterminatedString,
    UnterminatedBlockComment,
}

/// One recorded lexical error: the source line it was reported at and
/// what went wrong.
#[derive(Clone, Copy, Debug, PartialEq, Eq, Structural)]
pub struct Diagnostic {
    pub line: usize,
    pub kind: ErrorKind,
}

/// The mathematical image of a `Diagnostic`.
pub struct SpecDiagnostic {
    pub line: int,
    pub kind: ErrorKind,
}

impl DeepView for Diagnostic {
    type V = SpecDiagnostic;

    open spec fn deep_view(&self) -> SpecDiagnostic {
        SpecDiagnostic { line: self.line as int, kind: self.kind }
    }
}

impl Diagnostic {
    /// The human-readable message for this kind of error.
    pub fn message(&self) -> (r: &'static str)
        ensures
            self.kind == ErrorKind::UnexpectedCharacter ==> r@ == "Unexpected character."@,
            self.kind == ErrorKind::UnterminatedString ==> r@ == "Unterminated string."@,
            self.kind == ErrorKind::UnterminatedBlockComment ==> r@ == "Unterminated block quote"@,
    {
        match self.kind {
            ErrorKind::UnexpectedCharacter => "Unexpected character.",
            ErrorKind::UnterminatedString => "Unterminated string.",
            ErrorKind::UnterminatedBlockComment => "Unterminated block quote",
        }
    }
}

} // verus!
