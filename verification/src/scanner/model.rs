//! The mathematical model of scanning.
//!
//! `step` says what one call of the scanner's dispatch does at a source
//! position: which token (if any) it emits, which error (if any) it
//! records, how the line counter moves, and where the cursor lands.
//! `scan_from` folds `step` over the rest of the source, and `scan` is the
//! whole lexical phase: `scan_from` plus the terminal end-of-input token.
//! The executable scanner is proved to produce exactly this.
//!
//! The source is a sequence of characters, one source position per
//! character; classification is over the ASCII range (the supported
//! single-byte domain — a documented limitation, not a guarantee about
//! wider encodings).

use vstd::prelude::*;
use crate::scanner::token::{TokenType, SpecToken, SpecLiteral};
use crate::scanner::report::{ErrorKind, SpecDiagnostic};

verus! {

/// A decimal digit.
pub open spec fn spec_is_digit(c: char) -> bool {
    '0' <= c && c <= '9'
}

/// A character that may start an identifier: an ASCII letter or underscore.
pub open spec fn spec_is_alpha(c: char) -> bool {
    ('a' <= c && c <= 'z') || ('A' <= c && c <= 'Z') || c == '_'
}

/// A character that may continue an identifier.
pub open spec fn spec_is_alnum(c: char) -> bool {
    spec_is_alpha(c) || spec_is_digit(c)
}

/// The fixed keyword table: the sixteen reserved spellings map to their
/// dedicated kinds; every other identifier-shaped lexeme is an `Identifier`.
pub open spec fn keyword_kind(s: Seq<char>) -> TokenType {
    if s == seq!['a', 'n', 'd'] { TokenType::And }
    else if s == seq!['c', 'l', 'a', 's', 's'] { TokenType::Class }
    else if s == seq!['e', 'l', 's', 'e'] { TokenType::Else }
    else if s == seq!['f', 'a', 'l', 's', 'e'] { TokenType::False }
    else if s == seq!['f', 'o', 'r'] { TokenType::For }
    else if s == seq!['f', 'u', 'n'] { TokenType::Fun }
    else if s == seq!['i', 'f'] { TokenType::If }
    else if s == seq!['n', 'i', 'l'] { TokenType::Nil }
    else if s == seq!['o', 'r'] { TokenType::Or }
    else if s == seq!['p', 'r', 'i', 'n', 't'] { TokenType::Print }
    else if s == seq!['r', 'e', 't', 'u', 'r', 'n'] { TokenType::Return }
    else if s == seq!['s', 'u', 'p', 'e', 'r'] { TokenType::Super }
    else if s == seq!['t', 'h', 'i', 's'] { TokenType::This }
    else if s == seq!['t', 'r', 'u', 'e'] { TokenType::True }
    else if s == seq!['v', 'a', 'r'] { TokenType::Var }
    else if s == seq!['w', 'h', 'i', 'l', 'e'] { TokenType::While }
    else { TokenType::Identifier }
}

/// The first position at or after `i` whose character is not a digit
/// (or the end of the source).
pub open spec fn digits_end(s: Seq<char>, i: int) -> int
    decreases s.len() - i,
{
    if i < 0 || i >= s.len() {
        i
    } else if spec_is_digit(s[i]) {
        digits_end(s, i + 1)
    } else {
        i
    }
}

/// The first position at or after `i` whose character cannot continue an
/// identifier (or the end of the source).
pub open spec fn ident_end(s: Seq<char>, i: int) -> int
    decreases s.len() - i,
{
    if i < 0 || i >= s.len() {
        i
    } else if spec_is_alnum(s[i]) {
        ident_end(s, i + 1)
    } else {
        i
    }
}

/// The position of the first newline at or after `i`, or the end of the
/// source: where a line comment stops consuming.
pub open spec fn line_comment_end(s: Seq<char>, i: int) -> int
    decreases s.len() - i,
{
    if i < 0 || i >= s.len() {
        s.len() as int
    } else if s[i] == '\n' {
        i
    } else {
        line_comment_end(s, i + 1)
    }
}

/// The position of the first closing double quote at or after `i`, or the
/// end of the source if the string never closes.
pub open spec fn string_end(s: Seq<char>, i: int) -> int
    decreases s.len() - i,
{
    if i < 0 || i >= s.len() {
        s.len() as int
    } else if s[i] == '"' {
        i
    } else {
        string_end(s, i + 1)
    }
}

/// The position of the first block-comment close marker (a star directly
/// followed by a slash) at or after `i`, or the end of the source if the
/// comment never closes. An inner open marker is not tracked: block
/// comments do not nest.
pub open spec fn block_end(s: Seq<char>, i: int) -> int
    decreases s.len() - i,
{
    if i < 0 || i >= s.len() {
        s.len() as int
    } else if s[i] == '*' && i + 1 < s.len() && s[i + 1] == '/' {
        i
    } else {
        block_end(s, i + 1)
    }
}

/// How many newline characters lie in the half-open range `[i, j)`.
pub open spec fn count_newlines(s: Seq<char>, i: int, j: int) -> int
    decreases j - i,
{
    if i < 0 || i >= j {
        0
    } else {
        (if s[i] == '\n' { 1int } else { 0int }) + count_newlines(s, i + 1, j)
    }
}

/// The first position at or after `i`, and before `stop`, whose character
/// is not `'0'` (or `stop`): where the significant digits of an integer
/// part begin.
pub open spec fn zeros_end(s: Seq<char>, i: int, stop: int) -> int
    decreases stop - i,
{
    if i < 0 || i >= stop {
        stop
    } else if s[i] == '0' {
        zeros_end(s, i + 1, stop)
    } else {
        i
    }
}

/// The position after the last character in `[stop, j)` that is not `'0'`,
/// scanned from the right (or `stop` if all are zeros): where the
/// significant digits of a fraction end.
pub open spec fn nonzero_tail(s: Seq<char>, j: int, stop: int) -> int
    decreases j - stop,
{
    if j <= stop {
        stop
    } else if s[j - 1] == '0' {
        nonzero_tail(s, j - 1, stop)
    } else {
        j
    }
}

/// The position of the first dot at or after `i`, or the end of `s`.
pub open spec fn dot_index(s: Seq<char>, i: int) -> int
    decreases s.len() - i,
{
    if i < 0 || i >= s.len() {
        s.len() as int
    } else if s[i] == '.' {
        i
    } else {
        dot_index(s, i + 1)
    }
}

/// The canonical decimal text of a consumed numeric lexeme (digits with at
/// most one interior dot): leading zeros of the integer part dropped (one
/// digit always kept), trailing zeros of the fraction dropped, and the dot
/// dropped with an emptied fraction. Two lexemes denote the same numeric
/// value exactly when their canonical texts are equal.
pub open spec fn canonical_number(s: Seq<char>) -> Seq<char> {
    let d = dot_index(s, 0);
    let z = zeros_end(s, 0, d);
    let ip_start = if z == d { d - 1 } else { z };
    let ip = s.subrange(ip_start, d);
    if d == s.len() {
        ip
    } else {
        let fe = nonzero_tail(s, s.len() as int, d + 1);
        if fe == d + 1 {
            ip
        } else {
            ip + seq!['.'] + s.subrange(d + 1, fe)
        }
    }
}

/// What one dispatch of the scanner does: the tokens it appends (none or
/// one), the errors it records (none or one), the line counter after it,
/// and the position of the next unread character.
pub struct ScanStep {
    pub tokens: Seq<SpecToken>,
    pub errors: Seq<SpecDiagnostic>,
    pub line: int,
    pub next: int,
}

/// A step that emits one literal-free token whose lexeme runs from `i` to
/// `n` and leaves the line counter alone.
pub open spec fn simple_step(kind: TokenType, s: Seq<char>, i: int, l: int, n: int) -> ScanStep {
    ScanStep {
        tokens: seq![SpecToken { kind, lexeme: s.subrange(i, n), line: l, literal: None }],
        errors: seq![],
        line: l,
        next: n,
    }
}

/// Maximal munch for the four ambiguous operator prefixes: a following
/// equals sign extends the token to its two-character form.
pub open spec fn operator_step(one: TokenType, two: TokenType, s: Seq<char>, i: int, l: int) -> ScanStep {
    if i + 1 < s.len() && s[i + 1] == '=' {
        simple_step(two, s, i, l, i + 2)
    } else {
        simple_step(one, s, i, l, i + 1)
    }
}

/// A line comment (`i` at the first slash): everything through the end of
/// the line is consumed, no token, no error; the newline itself is left
/// for the next step.
pub open spec fn step_line_comment(s: Seq<char>, i: int, l: int) -> ScanStep {
    ScanStep { tokens: seq![], errors: seq![], line: l, next: line_comment_end(s, i + 2) }
}

/// A block comment (`i` at the slash, `i + 1` at the star): consumed
/// through the close marker, counting interior newlines; reaching the end
/// of input first records one unterminated-block-comment error at the line
/// the comment began.
pub open spec fn step_block_comment(s: Seq<char>, i: int, l: int) -> ScanStep {
    let e = block_end(s, i + 2);
    if e < s.len() {
        ScanStep {
            tokens: seq![],
            errors: seq![],
            line: l + count_newlines(s, i + 2, e),
            next: e + 2,
        }
    } else {
        ScanStep {
            tokens: seq![],
            errors: seq![SpecDiagnostic { line: l, kind: ErrorKind::UnterminatedBlockComment }],
            line: l + count_newlines(s, i + 2, e),
            next: s.len() as int,
        }
    }
}

/// A string literal (`i` at the opening quote). Interior newlines are
/// legal and counted. On success the token starts at line `l`, its lexeme
/// includes both quotes, and its payload is the text strictly between
/// them; reaching the end of input first records one unterminated-string
/// error at the line the scan ended on, and emits no token.
pub open spec fn step_string(s: Seq<char>, i: int, l: int) -> ScanStep {
    let e = string_end(s, i + 1);
    let l2 = l + count_newlines(s, i + 1, e);
    if e < s.len() {
        ScanStep {
            tokens: seq![
                SpecToken {
                    kind: TokenType::Str,
                    lexeme: s.subrange(i, e + 1),
                    line: l,
                    literal: Some(SpecLiteral::Str(s.subrange(i + 1, e))),
                },
            ],
            errors: seq![],
            line: l2,
            next: e + 1,
        }
    } else {
        ScanStep {
            tokens: seq![],
            errors: seq![SpecDiagnostic { line: l2, kind: ErrorKind::UnterminatedString }],
            line: l2,
            next: s.len() as int,
        }
    }
}

/// Where a number starting at `i` stops: a maximal digit run, extended
/// over a dot only when the dot is directly followed by another digit
/// (two-character lookahead); otherwise the dot is left unconsumed.
pub open spec fn number_end(s: Seq<char>, i: int) -> int {
    let d1 = digits_end(s, i);
    if d1 < s.len() && s[d1] == '.' && d1 + 1 < s.len() && spec_is_digit(s[d1 + 1]) {
        digits_end(s, d1 + 1)
    } else {
        d1
    }
}

/// A number literal (`i` at its first digit): one token whose payload is
/// the canonical decimal text of the consumed lexeme.
pub open spec fn step_number(s: Seq<char>, i: int, l: int) -> ScanStep {
    let e = number_end(s, i);
    let lex = s.subrange(i, e);
    ScanStep {
        tokens: seq![
            SpecToken {
                kind: TokenType::Number,
                lexeme: lex,
                line: l,
                literal: Some(SpecLiteral::Number(canonical_number(lex))),
            },
        ],
        errors: seq![],
        line: l,
        next: e,
    }
}

/// An identifier or keyword (`i` at its first character): the maximal
/// identifier run, classified against the keyword table, with no payload.
pub open spec fn step_identifier(s: Seq<char>, i: int, l: int) -> ScanStep {
    let e = ident_end(s, i);
    let lex = s.subrange(i, e);
    ScanStep {
        tokens: seq![SpecToken { kind: keyword_kind(lex), lexeme: lex, line: l, literal: None }],
        errors: seq![],
        line: l,
        next: e,
    }
}

/// One dispatch of the scanner at position `i` with line counter `l`.
/// A character matched by no rule records one unexpected-character error
/// and is skipped; scanning always moves forward.
pub open spec fn step(s: Seq<char>, i: int, l: int) -> ScanStep
    recommends
        0 <= i < s.len(),
{
    let c = s[i];
    if c == '(' { simple_step(TokenType::LeftParen, s, i, l, i + 1) }
    else if c == ')' { simple_step(TokenType::RightParen, s, i, l, i + 1) }
    else if c == '{' { simple_step(TokenType::LeftBrace, s, i, l, i + 1) }
    else if c == '}' { simple_step(TokenType::RightBrace, s, i, l, i + 1) }
    else if c == ',' { simple_step(TokenType::Comma, s, i, l, i + 1) }
    else if c == '.' { simple_step(TokenType::Dot, s, i, l, i + 1) }
    else if c == '-' { simple_step(TokenType::Minus, s, i, l, i + 1) }
    else if c == '+' { simple_step(TokenType::Plus, s, i, l, i + 1) }
    else if c == ';' { simple_step(TokenType::SemiColon, s, i, l, i + 1) }
    else if c == '*' { simple_step(TokenType::Star, s, i, l, i + 1) }
    else if c == '!' { operator_step(TokenType::Bang, TokenType::BangEqual, s, i, l) }
    else if c == '=' { operator_step(TokenType::Equal, TokenType::EqualEqual, s, i, l) }
    else if c == '<' { operator_step(TokenType::Less, TokenType::LessEqual, s, i, l) }
    else if c == '>' { operator_step(TokenType::Greater, TokenType::GreaterEqual, s, i, l) }
    else if c == '/' {
        if i + 1 < s.len() && s[i + 1] == '/' {
            step_line_comment(s, i, l)
        } else if i + 1 < s.len() && s[i + 1] == '*' {
            step_block_comment(s, i, l)
        } else {
            simple_step(TokenType::Slash, s, i, l, i + 1)
        }
    }
    else if c == ' ' || c == '\r' || c == '\t' {
        ScanStep { tokens: seq![], errors: seq![], line: l, next: i + 1 }
    }
    else if c == '\n' {
        ScanStep { tokens: seq![], errors: seq![], line: l + 1, next: i + 1 }
    }
    else if c == '"' { step_string(s, i, l) }
    else if spec_is_digit(c) { step_number(s, i, l) }
    else if spec_is_alpha(c) { step_identifier(s, i, l) }
    else {
        ScanStep {
            tokens: seq![],
            errors: seq![SpecDiagnostic { line: l, kind: ErrorKind::UnexpectedCharacter }],
            line: l,
            next: i + 1,
        }
    }
}

/// Everything a scan produces besides the cursor: tokens and errors in
/// source order, and the final line counter.
pub struct ScanOut {
    pub tokens: Seq<SpecToken>,
    pub errors: Seq<SpecDiagnostic>,
    pub line: int,
}

/// `step` folded over the source from position `i` to the end. (The
/// recursion clamps the next position into `(i, len]` so that it is
/// well-founded by construction; `lemma_step_facts` shows the clamp never
/// alters anything.)
pub open spec fn scan_from(s: Seq<char>, i: int, l: int) -> ScanOut
    decreases s.len() - i,
{
    if i < 0 || i >= s.len() {
        ScanOut { tokens: seq![], errors: seq![], line: l }
    } else {
        let st = step(s, i, l);
        let n = if st.next <= i { i + 1 } else if st.next > s.len() { s.len() as int } else { st.next };
        let rest = scan_from(s, n, st.line);
        ScanOut {
            tokens: st.tokens + rest.tokens,
            errors: st.errors + rest.errors,
            line: rest.line,
        }
    }
}

/// The terminal token appended once at the end of every scan: empty
/// lexeme, the post-scan line counter, no payload.
pub open spec fn eof_token(l: int) -> SpecToken {
    SpecToken { kind: TokenType::Eof, lexeme: seq![], line: l, literal: None }
}

/// The whole lexical phase from line counter `l`: every token the source
/// yields, in source order, with the end-of-input marker as the unique
/// last element.
pub open spec fn scan(s: Seq<char>, l: int) -> ScanOut {
    let o = scan_from(s, 0, l);
    ScanOut { tokens: o.tokens.push(eof_token(o.line)), errors: o.errors, line: o.line }
}

pub proof fn lemma_digits_end_bounds(s: Seq<char>, i: int)
    requires
        0 <= i <= s.len(),
    ensures
        i <= digits_end(s, i) <= s.len(),
    decreases s.len() - i,
{
    if i < s.len() && spec_is_digit(s[i]) {
        lemma_digits_end_bounds(s, i + 1);
    }
}

pub proof fn lemma_ident_end_bounds(s: Seq<char>, i: int)
    requires
        0 <= i <= s.len(),
    ensures
        i <= ident_end(s, i) <= s.len(),
    decreases s.len() - i,
{
    if i < s.len() && spec_is_alnum(s[i]) {
        lemma_ident_end_bounds(s, i + 1);
    }
}

pub proof fn lemma_line_comment_end_bounds(s: Seq<char>, i: int)
    requires
        0 <= i <= s.len(),
    ensures
        i <= line_comment_end(s, i) <= s.len(),
    decreases s.len() - i,
{
    if i < s.len() && s[i] != '\n' {
        lemma_line_comment_end_bounds(s, i + 1);
    }
}

pub proof fn lemma_string_end_bounds(s: Seq<char>, i: int)
    requires
        0 <= i <= s.len(),
    ensures
        i <= string_end(s, i) <= s.len(),
    decreases s.len() - i,
{
    if i < s.len() && s[i] != '"' {
        lemma_string_end_bounds(s, i + 1);
    }
}

pub proof fn lemma_block_end_bounds(s: Seq<char>, i: int)
    requires
        0 <= i <= s.len(),
    ensures
        i <= block_end(s, i) <= s.len(),
        block_end(s, i) < s.len() ==> block_end(s, i) + 1 < s.len(),
    decreases s.len() - i,
{
    if i < s.len() && !(s[i] == '*' && i + 1 < s.len() && s[i + 1] == '/') {
        lemma_block_end_bounds(s, i + 1);
    }
}

pub proof fn lemma_count_newlines_bounds(s: Seq<char>, i: int, j: int)
    requires
        i <= j,
    ensures
        0 <= count_newlines(s, i, j) <= j - i,
    decreases j - i,
{
    if 0 <= i && i < j {
        lemma_count_newlines_bounds(s, i + 1, j);
    }
}

/// Extending the counted range by one position on the right adds exactly
/// that position's contribution.
pub proof fn lemma_count_newlines_extend(s: Seq<char>, i: int, j: int)
    requires
        0 <= i <= j,
    ensures
        count_newlines(s, i, j + 1) == count_newlines(s, i, j) + (if 0 <= j && s[j] == '\n' { 1int } else { 0int }),
    decreases j - i,
{
    if i < j {
        lemma_count_newlines_extend(s, i + 1, j);
    } else {
        assert(count_newlines(s, i, j) == 0);
        assert(count_newlines(s, i + 1, j + 1) == 0);
    }
}

/// Every step moves the cursor strictly forward and never past the end,
/// advances the line counter by at most one per consumed character, and
/// never emits the end-of-input kind.
pub proof fn lemma_step_facts(s: Seq<char>, i: int, l: int)
    requires
        0 <= i < s.len(),
    ensures
        i < step(s, i, l).next <= s.len(),
        l <= step(s, i, l).line <= l + (step(s, i, l).next - i),
        forall|k: int| 0 <= k < step(s, i, l).tokens.len() ==> (#[trigger] step(s, i, l).tokens[k].kind) != TokenType::Eof,
{
    let c = s[i];
    if c == '/' && i + 1 < s.len() && s[i + 1] == '/' {
        lemma_line_comment_end_bounds(s, i + 2);
    } else if c == '/' && i + 1 < s.len() && s[i + 1] == '*' {
        lemma_block_end_bounds(s, i + 2);
        let e = block_end(s, i + 2);
        lemma_count_newlines_bounds(s, i + 2, e);
    } else if c == '"' {
        lemma_string_end_bounds(s, i + 1);
        let e = string_end(s, i + 1);
        lemma_count_newlines_bounds(s, i + 1, e);
    } else if spec_is_digit(c) {
        lemma_digits_end_bounds(s, i + 1);
        let d1 = digits_end(s, i);
        assert(d1 == digits_end(s, i + 1));
        if d1 < s.len() && s[d1] == '.' && d1 + 1 < s.len() && spec_is_digit(s[d1 + 1]) {
            lemma_digits_end_bounds(s, d1 + 2);
            assert(digits_end(s, d1 + 1) == digits_end(s, d1 + 2));
        }
    } else if !(c == '(' || c == ')' || c == '{' || c == '}' || c == ',' || c == '.' || c == '-'
        || c == '+' || c == ';' || c == '*' || c == '!' || c == '=' || c == '<' || c == '>'
        || c == '/' || c == ' ' || c == '\r' || c == '\t' || c == '\n') && spec_is_alpha(c) {
        lemma_ident_end_bounds(s, i + 1);
        assert(ident_end(s, i) == ident_end(s, i + 1));
    }
}

/// Whether a lexeme is one of the sixteen fixed keyword spellings.
pub open spec fn is_keyword(t: Seq<char>) -> bool {
    ||| t == seq!['a', 'n', 'd']
    ||| t == seq!['c', 'l', 'a', 's', 's']
    ||| t == seq!['e', 'l', 's', 'e']
    ||| t == seq!['f', 'a', 'l', 's', 'e']
    ||| t == seq!['f', 'o', 'r']
    ||| t == seq!['f', 'u', 'n']
    ||| t == seq!['i', 'f']
    ||| t == seq!['n', 'i', 'l']
    ||| t == seq!['o', 'r']
    ||| t == seq!['p', 'r', 'i', 'n', 't']
    ||| t == seq!['r', 'e', 't', 'u', 'r', 'n']
    ||| t == seq!['s', 'u', 'p', 'e', 'r']
    ||| t == seq!['t', 'h', 'i', 's']
    ||| t == seq!['t', 'r', 'u', 'e']
    ||| t == seq!['v', 'a', 'r']
    ||| t == seq!['w', 'h', 'i', 'l', 'e']
}

/// Law: maximal munch for the four ambiguous operator prefixes. At a
/// `!`, `=`, `<` or `>`, one token is scanned: the two-character operator
/// exactly when an equals sign follows directly, the bare one-character
/// operator otherwise.
pub proof fn lemma_operator_maximal_munch(s: Seq<char>, i: int, l: int)
    requires
        0 <= i < s.len(),
        s[i] == '!' || s[i] == '=' || s[i] == '<' || s[i] == '>',
    ensures
        step(s, i, l).tokens.len() == 1,
        step(s, i, l).errors.len() == 0,
        step(s, i, l).line == l,
        (i + 1 < s.len() && s[i + 1] == '=') ==> {
            &&& step(s, i, l).next == i + 2
            &&& step(s, i, l).tokens[0].lexeme == s.subrange(i, i + 2)
            &&& step(s, i, l).tokens[0].kind == (
                if s[i] == '!' { TokenType::BangEqual }
                else if s[i] == '=' { TokenType::EqualEqual }
                else if s[i] == '<' { TokenType::LessEqual }
                else { TokenType::GreaterEqual })
        },
        !(i + 1 < s.len() && s[i + 1] == '=') ==> {
            &&& step(s, i, l).next == i + 1
            &&& step(s, i, l).tokens[0].lexeme == s.subrange(i, i + 1)
            &&& step(s, i, l).tokens[0].kind == (
                if s[i] == '!' { TokenType::Bang }
                else if s[i] == '=' { TokenType::Equal }
                else if s[i] == '<' { TokenType::Less }
                else { TokenType::Greater })
        },
{
}

/// Law: keyword classification. An identifier-shaped lexeme scans to one
/// token, classified by the keyword table; the sixteen fixed spellings
/// get their dedicated kinds, and every other spelling gets the generic
/// identifier kind.
pub proof fn lemma_keyword_classification(s: Seq<char>, i: int, l: int)
    requires
        0 <= i < s.len(),
        spec_is_alpha(s[i]),
    ensures
        step(s, i, l).tokens.len() == 1,
        step(s, i, l).errors.len() == 0,
        step(s, i, l).line == l,
        step(s, i, l).next == ident_end(s, i),
        step(s, i, l).tokens[0].lexeme == s.subrange(i, ident_end(s, i)),
        step(s, i, l).tokens[0].kind == keyword_kind(s.subrange(i, ident_end(s, i))),
        step(s, i, l).tokens[0].kind == TokenType::Identifier
            <==> !is_keyword(s.subrange(i, ident_end(s, i))),
{
}

/// Law: a line comment and the newline after it. The comment consumes
/// everything up to (not including) the end of its line and yields no
/// token, no error, and no line-count change; the newline itself is an
/// ordinary step that only increments the line counter.
pub proof fn lemma_line_comment(s: Seq<char>, i: int, l: int)
    requires
        0 <= i,
        i + 1 < s.len(),
        s[i] == '/',
        s[i + 1] == '/',
    ensures
        step(s, i, l).tokens.len() == 0,
        step(s, i, l).errors.len() == 0,
        step(s, i, l).line == l,
        step(s, i, l).next == line_comment_end(s, i + 2),
        line_comment_end(s, i + 2) < s.len() ==> s[line_comment_end(s, i + 2)] == '\n'
            && step(s, line_comment_end(s, i + 2), l).line == l + 1
            && step(s, line_comment_end(s, i + 2), l).tokens.len() == 0,
{
    lemma_line_comment_end_found(s, i + 2);
}

proof fn lemma_line_comment_end_found(s: Seq<char>, i: int)
    requires
        0 <= i <= s.len(),
    ensures
        i <= line_comment_end(s, i) <= s.len(),
        line_comment_end(s, i) < s.len() ==> s[line_comment_end(s, i)] == '\n',
    decreases s.len() - i,
{
    if i < s.len() && s[i] != '\n' {
        lemma_line_comment_end_found(s, i + 1);
    }
}

/// Law: a block comment yields no token and advances the line counter by
/// exactly the newlines it spans; exactly when it reaches the end of the
/// input without its close marker, it records exactly one
/// unterminated-block-comment report, at the line the comment began.
pub proof fn lemma_block_comment(s: Seq<char>, i: int, l: int)
    requires
        0 <= i,
        i + 1 < s.len(),
        s[i] == '/',
        s[i + 1] == '*',
    ensures
        step(s, i, l).tokens.len() == 0,
        step(s, i, l).line == l + count_newlines(s, i + 2, block_end(s, i + 2)),
        block_end(s, i + 2) < s.len() ==> step(s, i, l).errors.len() == 0
            && step(s, i, l).next == block_end(s, i + 2) + 2,
        block_end(s, i + 2) == s.len() ==> step(s, i, l).errors
            == seq![SpecDiagnostic { line: l, kind: ErrorKind::UnterminatedBlockComment }]
            && step(s, i, l).next == s.len(),
{
    lemma_block_end_bounds(s, i + 2);
}

/// Law: the token sequence of every complete scan has the end-of-input
/// token as its last element — exactly once, with an empty lexeme and
/// the post-scan line counter.
pub proof fn lemma_eof_unique_terminal(s: Seq<char>, l: int)
    ensures
        scan(s, l).tokens.len() >= 1,
        scan(s, l).tokens.last() == eof_token(scan(s, l).line),
        forall|k: int| 0 <= k < scan(s, l).tokens.len() - 1
            ==> (#[trigger] scan(s, l).tokens[k].kind) != TokenType::Eof,
{
    lemma_scan_from_facts(s, 0, l);
}

/// No token produced before the terminal marker is of the end-of-input
/// kind, and the line counter only grows.
pub proof fn lemma_scan_from_facts(s: Seq<char>, i: int, l: int)
    ensures
        forall|k: int| 0 <= k < scan_from(s, i, l).tokens.len()
            ==> (#[trigger] scan_from(s, i, l).tokens[k].kind) != TokenType::Eof,
        scan_from(s, i, l).line >= l,
    decreases s.len() - i,
{
    if 0 <= i && i < s.len() {
        let st = step(s, i, l);
        lemma_step_facts(s, i, l);
        let n = if st.next <= i { i + 1 } else if st.next > s.len() { s.len() as int } else { st.next };
        lemma_scan_from_facts(s, n, st.line);
    }
}

} // verus!
