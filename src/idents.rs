//! Quoted strings, symbol names and file/section patterns.
use vstd::prelude::*;

use crate::text::{
    advances, alphabetic, alphanumeric, char_is, is_alphabetic, is_alphanumeric, outcome, run_end,
    ParseError, Source, SpecResult,
};

verus! {

pub open spec fn not_quote_class() -> spec_fn(char) -> bool {
    |c: char| c != '"'
}

/// A double-quoted string; its value is the text between the quotes, as it stands.
pub open spec fn spec_string(s: Seq<char>, p: int) -> SpecResult<Seq<char>> {
    if char_is(s, p, '"') {
        let q = run_end(s, p + 1, not_quote_class());
        if q < s.len() {
            Ok((s.subrange(p + 1, q), q + 1))
        } else {
            Err(ParseError::Mismatch)
        }
    } else {
        Err(ParseError::Mismatch)
    }
}

/// Characters that can start an unquoted symbol.
pub open spec fn symbol_start(c: char) -> bool {
    alphabetic(c) || c == '_' || c == '.'
}

/// Characters that can continue an unquoted symbol.
pub open spec fn symbol_char(c: char) -> bool {
    alphanumeric(c) || c == '_' || c == '.' || c == '-'
}

pub open spec fn symbol_class() -> spec_fn(char) -> bool {
    |c: char| symbol_char(c)
}

/// An unquoted symbol: a letter, `_` or `.`, then letters, digits, `_`, `.` and `-`.
pub open spec fn spec_simple_symbol(s: Seq<char>, p: int) -> SpecResult<Seq<char>> {
    if 0 <= p < s.len() && symbol_start(s[p]) {
        let q = run_end(s, p + 1, symbol_class());
        Ok((s.subrange(p, q), q))
    } else {
        Err(ParseError::Mismatch)
    }
}

/// A quoted string or an unquoted symbol.
pub open spec fn spec_symbol(s: Seq<char>, p: int) -> SpecResult<Seq<char>> {
    match spec_string(s, p) {
        Err(ParseError::Mismatch) => spec_simple_symbol(s, p),
        r => r,
    }
}

/// Characters of an unquoted pattern.
pub open spec fn pattern_char(c: char) -> bool {
    alphanumeric(c) || c == '_' || c == '.' || c == '$' || c == '/' || c == '\\' || c == '~'
        || c == '=' || c == '+' || c == '[' || c == ']' || c == '*' || c == '?' || c == '-'
        || c == '!' || c == '<' || c == '>' || c == '^' || c == ':'
}

pub open spec fn pattern_class() -> spec_fn(char) -> bool {
    |c: char| pattern_char(c)
}

/// One or more pattern characters.
pub open spec fn spec_simple_pattern(s: Seq<char>, p: int) -> SpecResult<Seq<char>> {
    let q = run_end(s, p, pattern_class());
    if 0 <= p && p < q {
        Ok((s.subrange(p, q), q))
    } else {
        Err(ParseError::Mismatch)
    }
}

/// A quoted string or an unquoted pattern.
pub open spec fn spec_pattern(s: Seq<char>, p: int) -> SpecResult<Seq<char>> {
    match spec_string(s, p) {
        Err(ParseError::Mismatch) => spec_simple_pattern(s, p),
        r => r,
    }
}

/// A rule that yields a piece of the text, found as the positions around it.
pub open spec fn span_agrees(
    r: Result<((usize, usize), usize), ParseError>,
    s: Seq<char>,
    m: SpecResult<Seq<char>>,
) -> bool {
    match r {
        Ok(((a, b), q)) => a <= b <= s.len() && m == Ok::<(Seq<char>, int), ParseError>(
            (s.subrange(a as int, b as int), q as int),
        ),
        Err(e) => m == Err::<(Seq<char>, int), ParseError>(e),
    }
}

fn is_symbol_char(c: char) -> (r: bool)
    ensures
        r == symbol_char(c),
{
    c == '_' || c == '.' || c == '-' || is_alphanumeric(c)
}

fn is_pattern(c: char) -> (r: bool)
    ensures
        r == pattern_char(c),
{
    match c {
        '_' | '.' | '$' | '/' | '\\' | '~' | '=' | '+' | '[' | ']' | '*' | '?' | '-' | '!' | '<'
        | '>' | '^' | ':' => true,
        _ => is_alphanumeric(c),
    }
}

pub(crate) fn string_span(src: &Source, p: usize) -> (r: Result<((usize, usize), usize), ParseError>)
    requires
        src.wf(),
        p <= src@.len(),
    ensures
        span_agrees(r, src@, spec_string(src@, p as int)),
        advances(r, p as int, src@.len() as int),
{
    let n = src.len();
    if !(p < n && src.is(p, '"')) {
        return Err(ParseError::Mismatch);
    }
    let mut q = p + 1;
    while q < n && src.at(q) != '"'
        invariant
            src.wf(),
            n == src@.len(),
            p + 1 <= q <= n,
            run_end(src@, p + 1, not_quote_class()) == run_end(src@, q as int, not_quote_class()),
        decreases n - q,
    {
        q = q + 1;
    }
    if q < n {
        Ok(((p + 1, q), q + 1))
    } else {
        Err(ParseError::Mismatch)
    }
}

pub(crate) fn symbol_span(src: &Source, p: usize) -> (r: Result<((usize, usize), usize), ParseError>)
    requires
        src.wf(),
        p <= src@.len(),
    ensures
        span_agrees(r, src@, spec_symbol(src@, p as int)),
        advances(r, p as int, src@.len() as int),
{
    match string_span(src, p) {
        Err(ParseError::Mismatch) => {},
        r => {
            return r;
        },
    }
    let n = src.len();
    if !(p < n) {
        return Err(ParseError::Mismatch);
    }
    let c = src.at(p);
    if !(c == '_' || c == '.' || is_alphabetic(c)) {
        return Err(ParseError::Mismatch);
    }
    let mut q = p + 1;
    while q < n && is_symbol_char(src.at(q))
        invariant
            src.wf(),
            n == src@.len(),
            p + 1 <= q <= n,
            run_end(src@, p + 1, symbol_class()) == run_end(src@, q as int, symbol_class()),
        decreases n - q,
    {
        q = q + 1;
    }
    Ok(((p, q), q))
}

pub(crate) fn pattern_span(src: &Source, p: usize) -> (r: Result<((usize, usize), usize), ParseError>)
    requires
        src.wf(),
        p <= src@.len(),
    ensures
        span_agrees(r, src@, spec_pattern(src@, p as int)),
        advances(r, p as int, src@.len() as int),
{
    match string_span(src, p) {
        Err(ParseError::Mismatch) => {},
        r => {
            return r;
        },
    }
    let n = src.len();
    let mut q = p;
    while q < n && is_pattern(src.at(q))
        invariant
            src.wf(),
            n == src@.len(),
            p <= q <= n,
            run_end(src@, p as int, pattern_class()) == run_end(src@, q as int, pattern_class()),
        decreases n - q,
    {
        q = q + 1;
    }
    if p < q {
        Ok(((p, q), q))
    } else {
        Err(ParseError::Mismatch)
    }
}

/// The text of a span, borrowed, together with the rest of the text.
fn borrowed<'a>(src: &Source<'a>, r: Result<((usize, usize), usize), ParseError>) -> (out: Result<
    (&'a str, &'a str),
    ParseError,
>)
    requires
        src.wf(),
        r matches Ok(((a, b), q)) ==> a <= b <= src@.len() && q <= src@.len(),
    ensures
        forall|m: SpecResult<Seq<char>>| span_agrees(r, src@, m) ==> #[trigger] outcome(out, src@, m),
{
    match r {
        Ok(((a, b), q)) => Ok((src.rest(q), src.piece(a, b))),
        Err(e) => Err(e),
    }
}

/// Parses a double-quoted string at the start of `input`.
pub fn string(input: &str) -> (r: Result<(&str, &str), ParseError>)
    ensures
        outcome(r, input@, spec_string(input@, 0)),
{
    let src = Source::new(input);
    let r = string_span(&src, 0);
    borrowed(&src, r)
}

/// Parses a symbol name at the start of `input`.
pub fn symbol(input: &str) -> (r: Result<(&str, &str), ParseError>)
    ensures
        outcome(r, input@, spec_symbol(input@, 0)),
{
    let src = Source::new(input);
    let r = symbol_span(&src, 0);
    borrowed(&src, r)
}

/// Parses a file or section pattern at the start of `input`.
pub fn pattern(input: &str) -> (r: Result<(&str, &str), ParseError>)
    ensures
        outcome(r, input@, spec_pattern(input@, 0)),
{
    let src = Source::new(input);
    let r = pattern_span(&src, 0);
    borrowed(&src, r)
}

} // verus!
