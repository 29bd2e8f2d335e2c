//! The lexical front end and expression-tree model of a small scripting
//! language: a verified scanner from source text to classified tokens,
//! and an immutable expression tree with a visitor traversal, exemplified
//! by a fully parenthesizing printer.
//!
//! `Lox` is the session state around the scanner: it keeps the line
//! counter continuous across successive scans, aggregates whether any
//! recoverable error occurred, and renders diagnostics in the one
//! diagnostic format. All input and output stays with the caller.

pub mod expression;
pub mod scanner;

use vstd::prelude::*;
use crate::scanner::Scanner;
use crate::scanner::model::{scan, scan_from};
use crate::scanner::report::Diagnostic;
use crate::scanner::token::Token;

verus! {

/// The character for one decimal digit value.
pub open spec fn digit_char(d: int) -> char {
    if d == 0 { '0' }
    else if d == 1 { '1' }
    else if d == 2 { '2' }
    else if d == 3 { '3' }
    else if d == 4 { '4' }
    else if d == 5 { '5' }
    else if d == 6 { '6' }
    else if d == 7 { '7' }
    else if d == 8 { '8' }
    else { '9' }
}

/// The decimal text of a nonnegative integer, most significant digit
/// first, no leading zeros (a lone zero for zero).
pub open spec fn decimal_digits(n: int) -> Seq<char>
    decreases n,
{
    if n < 10 {
        seq![digit_char(n)]
    } else {
        decimal_digits(n / 10).push(digit_char(n % 10))
    }
}

/// The one diagnostic format: `[line {line}] Error {location}: {message}`,
/// with an empty location for every lexical error.
pub open spec fn report_text(line: int, location: Seq<char>, message: Seq<char>) -> Seq<char> {
    seq!['[', 'l', 'i', 'n', 'e', ' '] + decimal_digits(line)
        + seq![']', ' ', 'E', 'r', 'r', 'o', 'r', ' '] + location
        + seq![':', ' '] + message
}

fn digit_of(d: usize) -> (c: char)
    requires
        d < 10,
    ensures
        c == digit_char(d as int),
{
    if d == 0 { '0' }
    else if d == 1 { '1' }
    else if d == 2 { '2' }
    else if d == 3 { '3' }
    else if d == 4 { '4' }
    else if d == 5 { '5' }
    else if d == 6 { '6' }
    else if d == 7 { '7' }
    else if d == 8 { '8' }
    else { '9' }
}

/// Renders a nonnegative integer as decimal text.
fn decimal_chars(n: usize) -> (r: Vec<char>)
    ensures
        r@ == decimal_digits(n as int),
    decreases n,
{
    if n < 10 {
        let mut r: Vec<char> = Vec::new();
        r.push(digit_of(n));
        proof {
            assert(r@ =~= decimal_digits(n as int));
        }
        r
    } else {
        proof {
            assert(n / 10 < n) by (nonlinear_arith)
                requires n >= 10;
        }
        let mut r = decimal_chars(n / 10);
        r.push(digit_of(n % 10));
        r
    }
}

/// The session around the scanner: whether any recoverable error has
/// been reported since the last reset, and the line the next scan
/// starts on.
pub struct Lox {
    pub had_error: bool,
    pub line: usize,
}

impl Lox {
    /// A fresh session: no error seen, starting at line one.
    pub fn new() -> (r: Lox)
        ensures
            !r.had_error,
            r.line == 1,
    {
        Lox { had_error: false, line: 1 }
    }

    /// Scans one piece of source, carrying the line counter over so that
    /// numbering is continuous across successive calls. Returns the
    /// tokens and the diagnostics of exactly the `scan` model, and
    /// remembers whether any error occurred.
    pub fn run(&mut self, source: Vec<char>) -> (r: (Vec<Token>, Vec<Diagnostic>))
        requires
            old(self).line + source@.len() <= usize::MAX,
        ensures
            r.0.deep_view() == scan(source@, old(self).line as int).tokens,
            r.1.deep_view() == scan(source@, old(self).line as int).errors,
            final(self).line as int == scan(source@, old(self).line as int).line,
            final(self).had_error == (old(self).had_error
                || scan(source@, old(self).line as int).errors.len() > 0),
    {
        let ghost src = source@;
        let ghost l0 = self.line as int;
        let mut lexer = Scanner::new(source, self.line);
        lexer.scan_tokens();
        proof {
            assert(lexer.tokens.deep_view() =~= scan(src, l0).tokens);
            assert(lexer.errors.deep_view() =~= scan(src, l0).errors);
            assert(lexer.errors.deep_view() =~= scan_from(src, 0, l0).errors);
            assert(lexer.errors@.len() == lexer.errors.deep_view().len());
        }
        self.line = lexer.line;
        if lexer.errors.len() > 0 {
            self.had_error = true;
        }
        (lexer.tokens, lexer.errors)
    }

    /// Forgets a previous error: what the interactive caller does after
    /// each line, so one bad line does not poison the next.
    pub fn reset_error(&mut self)
        ensures
            !final(self).had_error,
            final(self).line == old(self).line,
    {
        self.had_error = false;
    }

    /// Reports one error with no location, as every lexical error is
    /// reported: the rendered diagnostic line comes back to the caller,
    /// and the session remembers that an error occurred.
    pub fn error(&mut self, line: usize, message: &Vec<char>) -> (out: Vec<char>)
        ensures
            out@ == report_text(line as int, Seq::<char>::empty(), message@),
            final(self).had_error,
            final(self).line == old(self).line,
    {
        let location: Vec<char> = Vec::new();
        self.report(line, &location, message)
    }

    /// Renders one diagnostic in the fixed format and remembers that an
    /// error occurred.
    pub fn report(&mut self, line: usize, location: &Vec<char>, message: &Vec<char>) -> (out: Vec<char>)
        ensures
            out@ == report_text(line as int, location@, message@),
            final(self).had_error,
            final(self).line == old(self).line,
    {
        let mut out: Vec<char> = vec!['[', 'l', 'i', 'n', 'e', ' '];
        let mut digits = decimal_chars(line);
        out.append(&mut digits);
        let mut mid: Vec<char> = vec![']', ' ', 'E', 'r', 'r', 'o', 'r', ' '];
        out.append(&mut mid);
        let mut loc = vstd::slice::slice_to_vec(location.as_slice());
        out.append(&mut loc);
        let mut sep: Vec<char> = vec![':', ' '];
        out.append(&mut sep);
        let mut msg = vstd::slice::slice_to_vec(message.as_slice());
        out.append(&mut msg);
        self.had_error = true;
        proof {
            assert(out@ =~= report_text(line as int, location@, message@));
        }
        out
    }
}

} // verus!
