//! The scanner: a stateful cursor over a character sequence that turns
//! source text into tokens while tracking the source line, recording
//! recoverable lexical errors as diagnostics instead of aborting.

pub mod model;
pub mod report;
pub mod token;

use vstd::prelude::*;
use vstd::slice::{slice_subrange, slice_to_vec};
use crate::scanner::model::{
    block_end, canonical_number, count_newlines, digits_end, ident_end, keyword_kind,
    line_comment_end, number_end, scan_from, eof_token, spec_is_alnum, spec_is_alpha,
    spec_is_digit, step, step_block_comment, step_identifier, step_number, step_string, string_end,
    lemma_block_end_bounds, lemma_count_newlines_bounds, lemma_count_newlines_extend,
    lemma_digits_end_bounds, lemma_ident_end_bounds, lemma_step_facts,
    lemma_string_end_bounds,
};
use crate::scanner::report::{Diagnostic, ErrorKind, SpecDiagnostic};
use crate::scanner::token::{Literal, SpecLiteral, SpecToken, Token, TokenType};

verus! {

/// What `peek`-style lookahead sees at position `i`: the character there,
/// or the NUL sentinel past the end of the source.
pub open spec fn peek_at(s: Seq<char>, i: int) -> char {
    if 0 <= i < s.len() {
        s[i]
    } else {
        '\0'
    }
}

fn is_digit(c: char) -> (r: bool)
    ensures
        r == spec_is_digit(c),
{
    '0' <= c && c <= '9'
}

fn is_alpha(c: char) -> (r: bool)
    ensures
        r == spec_is_alpha(c),
{
    ('a' <= c && c <= 'z') || ('A' <= c && c <= 'Z') || c == '_'
}

fn is_alnum(c: char) -> (r: bool)
    ensures
        r == spec_is_alnum(c),
{
    is_alpha(c) || is_digit(c)
}

/// Character-for-character equality of a lexeme with a keyword spelling.
fn lex_eq(lex: &Vec<char>, kw: &Vec<char>) -> (r: bool)
    ensures
        r == (lex@ == kw@),
{
    if lex.len() != kw.len() {
        proof {
            assert(lex@ != kw@);
        }
        return false;
    }
    let n = lex.len();
    let mut j: usize = 0;
    while j < n
        invariant
            n == lex@.len() == kw@.len(),
            j <= n,
            forall|k: int| 0 <= k < j ==> lex@[k] == kw@[k],
        decreases n - j,
    {
        if lex[j] != kw[j] {
            proof {
                assert(lex@ != kw@);
            }
            return false;
        }
        j = j + 1;
    }
    proof {
        assert(lex@ =~= kw@);
    }
    true
}

/// Looks an identifier-shaped lexeme up in the fixed keyword table.
fn keyword_or_identifier(lex: &Vec<char>) -> (t: TokenType)
    ensures
        t == keyword_kind(lex@),
{
    if lex_eq(lex, &vec!['a', 'n', 'd']) { return TokenType::And; }
    if lex_eq(lex, &vec!['c', 'l', 'a', 's', 's']) { return TokenType::Class; }
    if lex_eq(lex, &vec!['e', 'l', 's', 'e']) { return TokenType::Else; }
    if lex_eq(lex, &vec!['f', 'a', 'l', 's', 'e']) { return TokenType::False; }
    if lex_eq(lex, &vec!['f', 'o', 'r']) { return TokenType::For; }
    if lex_eq(lex, &vec!['f', 'u', 'n']) { return TokenType::Fun; }
    if lex_eq(lex, &vec!['i', 'f']) { return TokenType::If; }
    if lex_eq(lex, &vec!['n', 'i', 'l']) { return TokenType::Nil; }
    if lex_eq(lex, &vec!['o', 'r']) { return TokenType::Or; }
    if lex_eq(lex, &vec!['p', 'r', 'i', 'n', 't']) { return TokenType::Print; }
    if lex_eq(lex, &vec!['r', 'e', 't', 'u', 'r', 'n']) { return TokenType::Return; }
    if lex_eq(lex, &vec!['s', 'u', 'p', 'e', 'r']) { return TokenType::Super; }
    if lex_eq(lex, &vec!['t', 'h', 'i', 's']) { return TokenType::This; }
    if lex_eq(lex, &vec!['t', 'r', 'u', 'e']) { return TokenType::True; }
    if lex_eq(lex, &vec!['v', 'a', 'r']) { return TokenType::Var; }
    if lex_eq(lex, &vec!['w', 'h', 'i', 'l', 'e']) { return TokenType::While; }
    TokenType::Identifier
}

/// Reduces a consumed numeric lexeme to its canonical decimal text: the
/// value carried by the emitted number token.
fn canonical_digits(lex: &Vec<char>) -> (r: Vec<char>)
    requires
        lex@.len() > 0,
        spec_is_digit(lex@[0]),
    ensures
        r@ == canonical_number(lex@),
{
    let n = lex.len();
    let ghost s = lex@;

    // position of the dot, if any
    let mut d: usize = 0;
    while d < n && lex[d] != '.'
        invariant
            d <= n,
            n == s.len(),
            s == lex@,
            crate::scanner::model::dot_index(s, 0) == crate::scanner::model::dot_index(s, d as int),
        decreases n - d,
    {
        d = d + 1;
    }
    proof {
        assert(crate::scanner::model::dot_index(s, d as int) == d as int);
        assert(d >= 1) by {
            assert(s[0] != '.');
        }
    }

    // first significant digit of the integer part
    let mut z: usize = 0;
    while z < d && lex[z] == '0'
        invariant
            z <= d <= n,
            n == s.len(),
            s == lex@,
            crate::scanner::model::zeros_end(s, 0, d as int) == crate::scanner::model::zeros_end(s, z as int, d as int),
        decreases d - z,
    {
        z = z + 1;
    }
    proof {
        assert(crate::scanner::model::zeros_end(s, z as int, d as int) == z as int);
    }
    let ip_start: usize = if z == d { d - 1 } else { z };

    let mut out = slice_to_vec(slice_subrange(lex.as_slice(), ip_start, d));

    if d == n {
        proof {
            assert(out@ =~= canonical_number(s));
        }
        return out;
    }

    // end of the significant fraction digits
    let mut fe: usize = n;
    while fe > d + 1 && lex[fe - 1] == '0'
        invariant
            d + 1 <= fe <= n,
            n == s.len(),
            s == lex@,
            d < n,
            crate::scanner::model::nonzero_tail(s, n as int, d + 1) == crate::scanner::model::nonzero_tail(s, fe as int, d + 1),
        decreases fe,
    {
        fe = fe - 1;
    }
    proof {
        assert(crate::scanner::model::nonzero_tail(s, fe as int, d + 1) == fe as int);
    }

    if fe == d + 1 {
        proof {
            assert(out@ =~= canonical_number(s));
        }
        return out;
    }

    out.push('.');
    let mut frac = slice_to_vec(slice_subrange(lex.as_slice(), d + 1, fe));
    out.append(&mut frac);
    proof {
        assert(out@ =~= canonical_number(s));
    }
    out
}

/// The stateful cursor: the source, the tokens and diagnostics collected
/// so far, the start of the lexeme under construction, the next unread
/// position, and the current 1-based line.
pub struct Scanner {
    pub source: Vec<char>,
    pub tokens: Vec<Token>,
    pub start: usize,
    pub current: usize,
    pub line: usize,
    pub errors: Vec<Diagnostic>,
}

impl Scanner {
    /// The cursor invariant: the lexeme start never passes the cursor, the
    /// cursor never passes the end, and the line counter has room for one
    /// increment per remaining character.
    pub open spec fn wf(&self) -> bool {
        self.start <= self.current <= self.source@.len()
        && self.line + self.source@.len() - self.current <= usize::MAX
    }

    /// A fresh scanner over `source`, with the line counter seeded by the
    /// caller so that numbering is continuous across successive scans.
    pub fn new(source: Vec<char>, line: usize) -> (r: Scanner)
        requires
            line + source@.len() <= usize::MAX,
        ensures
            r.source == source,
            r.tokens@ =~= Seq::<Token>::empty(),
            r.errors@ =~= Seq::<Diagnostic>::empty(),
            r.start == 0,
            r.current == 0,
            r.line == line,
            r.wf(),
    {
        Scanner {
            source,
            tokens: Vec::new(),
            start: 0,
            current: 0,
            line,
            errors: Vec::new(),
        }
    }

    fn is_at_end(&self) -> (r: bool)
        ensures
            r == (self.current >= self.source@.len()),
    {
        self.current >= self.source.len()
    }

    fn is_not_at_end(&self) -> (r: bool)
        ensures
            r == (self.current < self.source@.len()),
    {
        !self.is_at_end()
    }

    /// The next unread character, or the NUL sentinel at end of input.
    fn peek(&self) -> (r: char)
        ensures
            r == peek_at(self.source@, self.current as int),
    {
        if self.is_at_end() {
            '\0'
        } else {
            self.source[self.current]
        }
    }

    /// One character of lookahead past `peek`, with the same sentinel.
    fn peek_next(&self) -> (r: char)
        ensures
            r == peek_at(self.source@, self.current as int + 1),
    {
        if self.current >= self.source.len() {
            '\0'
        } else if self.current + 1 >= self.source.len() {
            '\0'
        } else {
            self.source[self.current + 1]
        }
    }

    /// Consumes and returns the next character, or `None` at end of input.
    fn advance(&mut self) -> (r: Option<char>)
        ensures
            old(self).current < old(self).source@.len() ==> {
                &&& r == Some(old(self).source@[old(self).current as int])
                &&& final(self).current == old(self).current + 1
            },
            old(self).current >= old(self).source@.len() ==> {
                &&& r is None
                &&& final(self).current == old(self).current
            },
            final(self).source == old(self).source,
            final(self).tokens == old(self).tokens,
            final(self).errors == old(self).errors,
            final(self).start == old(self).start,
            final(self).line == old(self).line,
    {
        if self.current < self.source.len() {
            let c = self.source[self.current];
            self.current = self.current + 1;
            Some(c)
        } else {
            None
        }
    }

    /// Consumes the next character only when it equals `expected`:
    /// the single-character lookahead behind maximal munch.
    fn match_token(&mut self, expected: char) -> (r: bool)
        ensures
            r == (old(self).current < old(self).source@.len()
                && old(self).source@[old(self).current as int] == expected),
            final(self).current == if r { old(self).current + 1 } else { old(self).current as int },
            final(self).source == old(self).source,
            final(self).tokens == old(self).tokens,
            final(self).errors == old(self).errors,
            final(self).start == old(self).start,
            final(self).line == old(self).line,
    {
        if self.current >= self.source.len() {
            return false;
        }
        if self.source[self.current] != expected {
            return false;
        }
        self.current = self.current + 1;
        true
    }

    /// Appends one token whose lexeme is the source slice from `start` to
    /// `current` and whose line is the current line counter.
    fn add_token(&mut self, kind: TokenType, literal: Option<Literal>)
        requires
            old(self).start <= old(self).current <= old(self).source@.len(),
        ensures
            final(self).tokens.deep_view() == old(self).tokens.deep_view().push(
                SpecToken {
                    kind,
                    lexeme: old(self).source@.subrange(old(self).start as int, old(self).current as int),
                    line: old(self).line as int,
                    literal: literal.deep_view(),
                },
            ),
            final(self).source == old(self).source,
            final(self).errors == old(self).errors,
            final(self).start == old(self).start,
            final(self).current == old(self).current,
            final(self).line == old(self).line,
    {
        let lexeme = slice_to_vec(slice_subrange(self.source.as_slice(), self.start, self.current));
        let t = Token::new(kind, lexeme, self.line, literal);
        self.tokens.push(t);
        proof {
            assert(self.tokens.deep_view() =~= old(self).tokens.deep_view().push(
                SpecToken {
                    kind,
                    lexeme: old(self).source@.subrange(old(self).start as int, old(self).current as int),
                    line: old(self).line as int,
                    literal: literal.deep_view(),
                },
            ));
        }
    }

    /// Records one recoverable lexical error; no token is emitted for it
    /// and scanning goes on.
    fn make_error(&mut self, line: usize, kind: ErrorKind)
        ensures
            final(self).errors.deep_view() == old(self).errors.deep_view().push(
                SpecDiagnostic { line: line as int, kind },
            ),
            final(self).source == old(self).source,
            final(self).tokens == old(self).tokens,
            final(self).start == old(self).start,
            final(self).current == old(self).current,
            final(self).line == old(self).line,
    {
        self.errors.push(Diagnostic { line, kind });
        proof {
            assert(self.errors.deep_view() =~= old(self).errors.deep_view().push(
                SpecDiagnostic { line: line as int, kind },
            ));
        }
    }

    /// Scans the remainder of a string literal, the opening quote already
    /// consumed. Interior newlines advance the line counter; the emitted
    /// token carries the line the literal started on.
    fn string(&mut self)
        requires
            old(self).wf(),
            old(self).current == old(self).start + 1,
            old(self).start < old(self).source@.len(),
        ensures
            final(self).wf(),
            final(self).source == old(self).source,
            final(self).start == old(self).start,
            final(self).tokens.deep_view() == old(self).tokens.deep_view()
                + step_string(old(self).source@, old(self).start as int, old(self).line as int).tokens,
            final(self).errors.deep_view() == old(self).errors.deep_view()
                + step_string(old(self).source@, old(self).start as int, old(self).line as int).errors,
            final(self).line as int
                == step_string(old(self).source@, old(self).start as int, old(self).line as int).line,
            final(self).current as int
                == step_string(old(self).source@, old(self).start as int, old(self).line as int).next,
    {
        let ghost s = self.source@;
        let ghost i = self.start as int;
        let ghost l = self.line as int;
        proof {
            lemma_string_end_bounds(s, i + 1);
            lemma_count_newlines_bounds(s, i + 1, string_end(s, i + 1));
        }
        let start_line = self.line;
        while self.peek() != '"' && self.is_not_at_end()
            invariant
                self.wf(),
                self.source == old(self).source,
                self.source@ == s,
                0 <= i,
                self.start == old(self).start,
                self.tokens == old(self).tokens,
                self.errors == old(self).errors,
                i + 1 <= self.current as int <= s.len(),
                string_end(s, i + 1) == string_end(s, self.current as int),
                self.line as int == l + count_newlines(s, i + 1, self.current as int),
            decreases s.len() - self.current,
        {
            if self.peek() == '\n' {
                self.line = self.line + 1;
            }
            proof {
                lemma_count_newlines_extend(s, i + 1, self.current as int);
            }
            self.advance();
        }

        if self.is_at_end() {
            self.make_error(self.line, ErrorKind::UnterminatedString);
            proof {
                assert(self.tokens.deep_view() =~= old(self).tokens.deep_view()
                    + step_string(s, i, l).tokens);
                assert(self.errors.deep_view() =~= old(self).errors.deep_view()
                    + step_string(s, i, l).errors);
            }
            return;
        }

        // the closing quote
        self.advance();
        let lexeme = slice_to_vec(slice_subrange(self.source.as_slice(), self.start, self.current));
        let value = slice_to_vec(
            slice_subrange(self.source.as_slice(), self.start + 1, self.current - 1),
        );
        let t = Token::new(TokenType::Str, lexeme, start_line, Some(Literal::Str(value)));
        self.tokens.push(t);
        proof {
            assert(self.tokens.deep_view() =~= old(self).tokens.deep_view()
                + step_string(s, i, l).tokens);
            assert(self.errors.deep_view() =~= old(self).errors.deep_view()
                + step_string(s, i, l).errors);
        }
    }

    /// Scans the remainder of a number literal, the first digit already
    /// consumed: a maximal digit run, extended over a dot only when a
    /// digit follows it.
    fn number(&mut self)
        requires
            old(self).wf(),
            old(self).current == old(self).start + 1,
            old(self).start < old(self).source@.len(),
            spec_is_digit(old(self).source@[old(self).start as int]),
        ensures
            final(self).wf(),
            final(self).source == old(self).source,
            final(self).start == old(self).start,
            final(self).line == old(self).line,
            final(self).tokens.deep_view() == old(self).tokens.deep_view()
                + step_number(old(self).source@, old(self).start as int, old(self).line as int).tokens,
            final(self).errors == old(self).errors,
            final(self).current as int == number_end(old(self).source@, old(self).start as int),
    {
        let ghost s = self.source@;
        let ghost i = self.start as int;
        proof {
            lemma_digits_end_bounds(s, i + 1);
        }
        while is_digit(self.peek())
            invariant
                self.wf(),
                self.source == old(self).source,
                self.source@ == s,
                0 <= i,
                self.start == old(self).start,
                self.tokens == old(self).tokens,
                self.errors == old(self).errors,
                self.line == old(self).line,
                i + 1 <= self.current as int <= s.len(),
                digits_end(s, i + 1) == digits_end(s, self.current as int),
            decreases s.len() - self.current,
        {
            self.advance();
        }
        proof {
            assert(self.current as int == digits_end(s, i));
        }
        let ghost d1 = self.current as int;

        if self.peek() == '.' && is_digit(self.peek_next()) {
            // consume the dot, then the fraction digits
            self.advance();
            proof {
                lemma_digits_end_bounds(s, d1 + 1);
            }
            while is_digit(self.peek())
                invariant
                    self.wf(),
                    self.source == old(self).source,
                    self.source@ == s,
                    self.start == old(self).start,
                    self.tokens == old(self).tokens,
                    self.errors == old(self).errors,
                    self.line == old(self).line,
                    d1 + 1 <= self.current as int <= s.len(),
                    digits_end(s, d1 + 1) == digits_end(s, self.current as int),
                decreases s.len() - self.current,
            {
                self.advance();
            }
            proof {
                assert(self.current as int == digits_end(s, d1 + 1));
            }
        }
        proof {
            assert(self.current as int == number_end(s, i));
        }

        let lexeme = slice_to_vec(slice_subrange(self.source.as_slice(), self.start, self.current));
        proof {
            assert(lexeme@[0] == s[i]);
        }
        let value = canonical_digits(&lexeme);
        let t = Token::new(TokenType::Number, lexeme, self.line, Some(Literal::Number(value)));
        self.tokens.push(t);
        proof {
            assert(self.tokens.deep_view() =~= old(self).tokens.deep_view()
                + step_number(s, i, old(self).line as int).tokens);
        }
    }

    /// Scans the remainder of an identifier, the first character already
    /// consumed, and classifies the lexeme against the keyword table.
    fn identifier(&mut self)
        requires
            old(self).wf(),
            old(self).current == old(self).start + 1,
            old(self).start < old(self).source@.len(),
            spec_is_alpha(old(self).source@[old(self).start as int]),
        ensures
            final(self).wf(),
            final(self).source == old(self).source,
            final(self).start == old(self).start,
            final(self).line == old(self).line,
            final(self).tokens.deep_view() == old(self).tokens.deep_view()
                + step_identifier(old(self).source@, old(self).start as int, old(self).line as int).tokens,
            final(self).errors == old(self).errors,
            final(self).current as int == ident_end(old(self).source@, old(self).start as int + 1),
    {
        let ghost s = self.source@;
        let ghost i = self.start as int;
        proof {
            lemma_ident_end_bounds(s, i + 1);
        }
        while is_alnum(self.peek())
            invariant
                self.wf(),
                self.source == old(self).source,
                self.source@ == s,
                0 <= i,
                self.start == old(self).start,
                self.tokens == old(self).tokens,
                self.errors == old(self).errors,
                self.line == old(self).line,
                i + 1 <= self.current as int <= s.len(),
                ident_end(s, i + 1) == ident_end(s, self.current as int),
            decreases s.len() - self.current,
        {
            self.advance();
        }

        let lexeme = slice_to_vec(slice_subrange(self.source.as_slice(), self.start, self.current));
        let kind = keyword_or_identifier(&lexeme);
        self.add_token(kind, None);
        proof {
            assert(self.tokens.deep_view() =~= old(self).tokens.deep_view()
                + step_identifier(s, i, old(self).line as int).tokens);
        }
    }

    /// Consumes a block comment through its close marker, the opening
    /// slash-star already consumed, counting interior newlines. Block
    /// comments do not nest. Reaching end of input first records one
    /// unterminated-block-comment error at the line the comment began.
    fn block_quote(&mut self)
        requires
            old(self).wf(),
            old(self).current == old(self).start + 2,
        ensures
            final(self).wf(),
            final(self).source == old(self).source,
            final(self).start == old(self).start,
            final(self).tokens == old(self).tokens,
            final(self).errors.deep_view() == old(self).errors.deep_view()
                + step_block_comment(old(self).source@, old(self).start as int, old(self).line as int).errors,
            final(self).line as int
                == step_block_comment(old(self).source@, old(self).start as int, old(self).line as int).line,
            final(self).current as int
                == step_block_comment(old(self).source@, old(self).start as int, old(self).line as int).next,
    {
        let ghost s = self.source@;
        let ghost i = self.start as int;
        let ghost l = self.line as int;
        proof {
            lemma_block_end_bounds(s, i + 2);
            lemma_count_newlines_bounds(s, i + 2, block_end(s, i + 2));
        }
        let start_line = self.line;
        while self.is_not_at_end() && !(self.peek() == '*' && self.peek_next() == '/')
            invariant
                self.wf(),
                self.source == old(self).source,
                self.source@ == s,
                0 <= i,
                self.start == old(self).start,
                self.tokens == old(self).tokens,
                self.errors == old(self).errors,
                i + 2 <= self.current as int <= s.len(),
                block_end(s, i + 2) == block_end(s, self.current as int),
                self.line as int == l + count_newlines(s, i + 2, self.current as int),
            decreases s.len() - self.current,
        {
            if self.peek() == '\n' {
                self.line = self.line + 1;
            }
            proof {
                lemma_count_newlines_extend(s, i + 2, self.current as int);
            }
            self.advance();
        }

        if self.is_at_end() {
            self.make_error(start_line, ErrorKind::UnterminatedBlockComment);
        }

        // the close marker (no-ops at end of input)
        self.advance();
        self.advance();
        proof {
            assert(self.errors.deep_view() =~= old(self).errors.deep_view()
                + step_block_comment(s, i, l).errors);
        }
    }

    /// Reads the single token, comment, or skipped character at `start`,
    /// dispatching on its first character: one execution of `step`.
    fn scan_token(&mut self)
        requires
            old(self).wf(),
            old(self).start == old(self).current,
            old(self).current < old(self).source@.len(),
        ensures
            final(self).wf(),
            final(self).source == old(self).source,
            final(self).start == old(self).start,
            final(self).tokens.deep_view() == old(self).tokens.deep_view()
                + step(old(self).source@, old(self).current as int, old(self).line as int).tokens,
            final(self).errors.deep_view() == old(self).errors.deep_view()
                + step(old(self).source@, old(self).current as int, old(self).line as int).errors,
            final(self).line as int
                == step(old(self).source@, old(self).current as int, old(self).line as int).line,
            final(self).current as int
                == step(old(self).source@, old(self).current as int, old(self).line as int).next,
    {
        let ghost s = self.source@;
        let ghost i = self.current as int;
        let ghost l = self.line as int;
        proof {
            lemma_step_facts(s, i, l);
        }
        let c_opt = self.advance();
        let c: char = match c_opt {
            Some(c) => c,
            None => {
                proof {
                    assert(false);
                }
                ' '
            },
        };

        if c == '(' {
            self.add_token(TokenType::LeftParen, None);
        } else if c == ')' {
            self.add_token(TokenType::RightParen, None);
        } else if c == '{' {
            self.add_token(TokenType::LeftBrace, None);
        } else if c == '}' {
            self.add_token(TokenType::RightBrace, None);
        } else if c == ',' {
            self.add_token(TokenType::Comma, None);
        } else if c == '.' {
            self.add_token(TokenType::Dot, None);
        } else if c == '-' {
            self.add_token(TokenType::Minus, None);
        } else if c == '+' {
            self.add_token(TokenType::Plus, None);
        } else if c == ';' {
            self.add_token(TokenType::SemiColon, None);
        } else if c == '*' {
            self.add_token(TokenType::Star, None);
        } else if c == '!' {
            if self.match_token('=') {
                self.add_token(TokenType::BangEqual, None);
            } else {
                self.add_token(TokenType::Bang, None);
            }
        } else if c == '=' {
            if self.match_token('=') {
                self.add_token(TokenType::EqualEqual, None);
            } else {
                self.add_token(TokenType::Equal, None);
            }
        } else if c == '<' {
            if self.match_token('=') {
                self.add_token(TokenType::LessEqual, None);
            } else {
                self.add_token(TokenType::Less, None);
            }
        } else if c == '>' {
            if self.match_token('=') {
                self.add_token(TokenType::GreaterEqual, None);
            } else {
                self.add_token(TokenType::Greater, None);
            }
        } else if c == '/' {
            if self.match_token('/') {
                // a line comment: consume through end of line, no token
                while self.peek() != '\n' && self.is_not_at_end()
                    invariant
                        self.wf(),
                        self.source == old(self).source,
                        self.source@ == s,
                        self.start == old(self).start,
                        self.tokens == old(self).tokens,
                        self.errors == old(self).errors,
                        self.line == old(self).line,
                        i + 2 <= self.current as int <= s.len(),
                        line_comment_end(s, i + 2) == line_comment_end(s, self.current as int),
                    decreases s.len() - self.current,
                {
                    self.advance();
                }
            } else if self.match_token('*') {
                self.block_quote();
            } else {
                self.add_token(TokenType::Slash, None);
            }
        } else if c == ' ' || c == '\r' || c == '\t' {
            // insignificant whitespace
        } else if c == '\n' {
            self.line = self.line + 1;
        } else if c == '"' {
            self.string();
        } else if is_digit(c) {
            self.number();
        } else if is_alpha(c) {
            self.identifier();
        } else {
            self.make_error(self.line, ErrorKind::UnexpectedCharacter);
        }

        proof {
            assert(self.tokens.deep_view() =~= old(self).tokens.deep_view() + step(s, i, l).tokens);
            assert(self.errors.deep_view() =~= old(self).errors.deep_view() + step(s, i, l).errors);
        }
    }

    /// The whole lexical phase: steps through the source until it is
    /// exhausted, then appends the single end-of-input token carrying the
    /// final line counter. Produces exactly the tokens, errors, and ending
    /// line of the `scan` model.
    pub fn scan_tokens(&mut self)
        requires
            old(self).wf(),
        ensures
            final(self).wf(),
            final(self).source == old(self).source,
            final(self).current == final(self).source@.len(),
            final(self).tokens.deep_view() == old(self).tokens.deep_view()
                + scan_from(old(self).source@, old(self).current as int, old(self).line as int).tokens
                    .push(eof_token(scan_from(old(self).source@, old(self).current as int, old(self).line as int).line)),
            final(self).errors.deep_view() == old(self).errors.deep_view()
                + scan_from(old(self).source@, old(self).current as int, old(self).line as int).errors,
            final(self).line as int
                == scan_from(old(self).source@, old(self).current as int, old(self).line as int).line,
    {
        let ghost s = self.source@;
        let ghost c0 = self.current as int;
        let ghost l0 = self.line as int;
        while !self.is_at_end()
            invariant
                self.wf(),
                self.source == old(self).source,
                self.source@ == s,
                old(self).tokens.deep_view() + scan_from(s, c0, l0).tokens
                    == self.tokens.deep_view() + scan_from(s, self.current as int, self.line as int).tokens,
                old(self).errors.deep_view() + scan_from(s, c0, l0).errors
                    == self.errors.deep_view() + scan_from(s, self.current as int, self.line as int).errors,
                scan_from(s, c0, l0).line == scan_from(s, self.current as int, self.line as int).line,
            decreases s.len() - self.current,
        {
            self.start = self.current;
            let ghost cur = self.current as int;
            let ghost ln = self.line as int;
            let ghost pre_tokens = self.tokens.deep_view();
            let ghost pre_errors = self.errors.deep_view();
            proof {
                lemma_step_facts(s, cur, ln);
            }
            self.scan_token();
            proof {
                let st = step(s, cur, ln);
                assert(scan_from(s, cur, ln).tokens == st.tokens + scan_from(s, st.next, st.line).tokens);
                assert(scan_from(s, cur, ln).errors == st.errors + scan_from(s, st.next, st.line).errors);
                assert(pre_tokens + scan_from(s, cur, ln).tokens
                    =~= (pre_tokens + st.tokens) + scan_from(s, st.next, st.line).tokens);
                assert(pre_errors + scan_from(s, cur, ln).errors
                    =~= (pre_errors + st.errors) + scan_from(s, st.next, st.line).errors);
            }
        }

        proof {
            assert(scan_from(s, self.current as int, self.line as int).tokens =~= Seq::<SpecToken>::empty());
            assert(scan_from(s, self.current as int, self.line as int).errors =~= Seq::<SpecDiagnostic>::empty());
            assert(self.tokens.deep_view() =~= old(self).tokens.deep_view() + scan_from(s, c0, l0).tokens);
            assert(self.errors.deep_view() =~= old(self).errors.deep_view() + scan_from(s, c0, l0).errors);
        }
        let empty_lexeme: Vec<char> = Vec::new();
        let t = Token::new(TokenType::Eof, empty_lexeme, self.line, None);
        let ghost pre_dv = self.tokens.deep_view();
        self.tokens.push(t);
        proof {
            assert(t.deep_view() == eof_token(scan_from(s, c0, l0).line)) by {
                assert(t.lexeme@ =~= Seq::<char>::empty());
                assert(eof_token(scan_from(s, c0, l0).line).lexeme =~= Seq::<char>::empty());
            }
            assert(self.tokens.deep_view() =~= pre_dv.push(t.deep_view()));
            assert(pre_dv.push(t.deep_view()) =~= old(self).tokens.deep_view()
                + scan_from(s, c0, l0).tokens.push(eof_token(scan_from(s, c0, l0).line)));
        }
    }
}

} // verus!
