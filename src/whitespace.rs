//! Blanks and comments between tokens.
use vstd::prelude::*;

use crate::text::{char_is, outcome, run_end, ParseError, Source};

verus! {

/// The blank characters: space, tab, carriage return and line feed.
pub open spec fn is_space(c: char) -> bool {
    c == ' ' || c == '\t' || c == '\r' || c == '\n'
}

pub open spec fn space_class() -> spec_fn(char) -> bool {
    |c: char| is_space(c)
}

/// Position after the first `*/` at or after `q`.
pub open spec fn comment_close(s: Seq<char>, q: int) -> Option<int>
    decreases s.len() - q,
{
    if q < 0 || q + 2 > s.len() {
        None
    } else if s[q] == '*' && s[q + 1] == '/' {
        Some(q + 2)
    } else {
        comment_close(s, q + 1)
    }
}

/// A comment: `/*`, then everything up to the first `*/`.
pub open spec fn spec_comment(s: Seq<char>, p: int) -> Option<int> {
    if char_is(s, p, '/') && char_is(s, p + 1, '*') {
        comment_close(s, p + 2)
    } else {
        None
    }
}

/// A run of blanks, or one comment.
pub open spec fn spec_space_or_comment(s: Seq<char>, p: int) -> Option<int> {
    if 0 <= p < s.len() && is_space(s[p]) {
        Some(run_end(s, p, space_class()))
    } else {
        spec_comment(s, p)
    }
}

/// Position after all blanks and comments that follow `p`.
pub open spec fn skip_ws(s: Seq<char>, p: int) -> int
    decreases s.len() - p,
{
    match spec_space_or_comment(s, p) {
        Some(q) => if p < q <= s.len() {
            skip_ws(s, q)
        } else {
            p
        },
        None => p,
    }
}

pub proof fn lemma_comment_close(s: Seq<char>, q: int)
    requires
        0 <= q,
    ensures
        comment_close(s, q) matches Some(r) ==> q + 2 <= r <= s.len(),
    decreases s.len() - q,
{
    if q + 2 <= s.len() && !(s[q] == '*' && s[q + 1] == '/') {
        lemma_comment_close(s, q + 1);
    }
}

fn comment_at(src: &Source, p: usize) -> (r: Option<usize>)
    requires
        src.wf(),
        p <= src@.len(),
    ensures
        r matches Some(q) ==> spec_comment(src@, p as int) == Some(q as int) && p + 4 <= q
            <= src@.len(),
        r is None ==> spec_comment(src@, p as int) is None,
{
    let n = src.len();
    if !(p < n && src.is(p, '/') && src.is(p + 1, '*')) {
        return None;
    }
    let mut q: usize = p + 2;
    while n - q >= 2
        invariant
            src.wf(),
            n == src@.len(),
            p + 2 <= q <= n,
            spec_comment(src@, p as int) == comment_close(src@, q as int),
        decreases n - q,
    {
        if src.at(q) == '*' && src.at(q + 1) == '/' {
            return Some(q + 2);
        }
        q = q + 1;
    }
    None
}

fn space_or_comment_at(src: &Source, p: usize) -> (r: Option<usize>)
    requires
        src.wf(),
        p <= src@.len(),
    ensures
        r matches Some(q) ==> spec_space_or_comment(src@, p as int) == Some(q as int) && p < q
            <= src@.len(),
        r is None ==> spec_space_or_comment(src@, p as int) is None,
{
    let n = src.len();
    if p < n && is_blank(src.at(p)) {
        let mut q: usize = p;
        while q < n && is_blank(src.at(q))
            invariant
                src.wf(),
                n == src@.len(),
                p <= q <= n,
                run_end(src@, p as int, space_class()) == run_end(src@, q as int, space_class()),
            decreases n - q,
        {
            q = q + 1;
        }
        Some(q)
    } else {
        comment_at(src, p)
    }
}

fn is_blank(c: char) -> (r: bool)
    ensures
        r == is_space(c),
{
    c == ' ' || c == '\t' || c == '\r' || c == '\n'
}

/// Skips blanks and comments.
pub(crate) fn skip(src: &Source, p: usize) -> (q: usize)
    requires
        src.wf(),
        p <= src@.len(),
    ensures
        q == skip_ws(src@, p as int),
        p <= q <= src@.len(),
{
    let mut q = p;
    loop
        invariant
            src.wf(),
            p <= q <= src@.len(),
            skip_ws(src@, p as int) == skip_ws(src@, q as int),
        decreases src@.len() - q,
    {
        match space_or_comment_at(src, q) {
            Some(r) => {
                q = r;
            },
            None => {
                return q;
            },
        }
    }
}

/// Recognizes one comment.
pub fn comment(input: &str) -> (r: Result<(&str, &str), ParseError>)
    ensures
        outcome(
            r,
            input@,
            match spec_comment(input@, 0) {
                Some(q) => Ok((input@.subrange(2, q - 2), q)),
                None => Err(ParseError::Mismatch),
            },
        ),
{
    let src = Source::new(input);
    match comment_at(&src, 0) {
        Some(q) => Ok((src.rest(q), src.piece(2, q - 2))),
        None => Err(ParseError::Mismatch),
    }
}


/// Recognizes one run of blanks, or one comment (giving the comment's inside).
pub fn space_or_comment(input: &str) -> (r: Result<(&str, &str), ParseError>)
    ensures
        outcome(
            r,
            input@,
            match spec_space_or_comment(input@, 0) {
                Some(q) => if input@.len() > 0 && is_space(input@[0]) {
                    Ok((input@.subrange(0, q), q))
                } else {
                    Ok((input@.subrange(2, q - 2), q))
                },
                None => Err(ParseError::Mismatch),
            },
        ),
{
    let src = Source::new(input);
    match space_or_comment_at(&src, 0) {
        Some(q) => {
            if src.len() > 0 && is_blank(src.at(0)) {
                Ok((src.rest(q), src.piece(0, q)))
            } else {
                proof {
                    lemma_comment_close(src@, 2);
                }
                Ok((src.rest(q), src.piece(2, q - 2)))
            }
        },
        None => Err(ParseError::Mismatch),
    }
}

/// Recognizes one or more runs of blanks and comments.
pub fn space(input: &str) -> (r: Result<(&str, &str), ParseError>)
    ensures
        outcome(
            r,
            input@,
            if skip_ws(input@, 0) > 0 {
                Ok((input@.subrange(0, skip_ws(input@, 0)), skip_ws(input@, 0)))
            } else {
                Err(ParseError::Mismatch)
            },
        ),
{
    let src = Source::new(input);
    let q = skip(&src, 0);
    if q > 0 {
        Ok((src.rest(q), src.piece(0, q)))
    } else {
        Err(ParseError::Mismatch)
    }
}

/// Recognizes any number, possibly none, of runs of blanks and comments.
pub fn opt_space(input: &str) -> (r: Result<(&str, &str), ParseError>)
    ensures
        outcome(
            r,
            input@,
            Ok((input@.subrange(0, skip_ws(input@, 0)), skip_ws(input@, 0))),
        ),
{
    let src = Source::new(input);
    let q = skip(&src, 0);
    Ok((src.rest(q), src.piece(0, q)))
}

} // verus!
