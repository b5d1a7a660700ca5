//! Memory-region declarations, with their bounds evaluated.
use vstd::prelude::*;

use crate::eval::{evaluate_expression, spec_eval};
use crate::expressions::{expression_at, spec_expression, ws_char, ws_char_at};
use crate::idents::{spec_symbol, symbol_span};
use crate::text::{
    advances, agrees, char_is, finish, outcome, run_end, spec_tag, ParseError, Source, SpecResult,
};
use crate::whitespace::{skip, skip_ws};

verus! {

/// A named memory region with its bounds already evaluated.
#[derive(Debug, PartialEq)]
pub struct Region {
    pub name: String,
    pub origin: u64,
    pub length: u64,
}

/// The mathematical value of a region.
pub struct SpecRegion {
    pub name: Seq<char>,
    pub origin: u64,
    pub length: u64,
}

impl DeepView for Region {
    type V = SpecRegion;

    open spec fn deep_view(&self) -> SpecRegion {
        SpecRegion { name: self.name@, origin: self.origin, length: self.length }
    }
}

pub open spec fn not_close_class() -> spec_fn(char) -> bool {
    |c: char| c != ')'
}

/// `( ... )`: the region's attributes, kept as text and not interpreted.
pub open spec fn spec_attributes(s: Seq<char>, p: int) -> Option<int> {
    if char_is(s, p, '(') {
        let q = run_end(s, p + 1, not_close_class());
        if q < s.len() {
            Some(q + 1)
        } else {
            None
        }
    } else {
        None
    }
}

/// `ORIGIN`, `org` or `o`.
pub open spec fn origin_keyword(s: Seq<char>, p: int) -> Option<int> {
    match spec_tag(s, p, "ORIGIN"@) {
        Some(q) => Some(q),
        None => match spec_tag(s, p, "org"@) {
            Some(q) => Some(q),
            None => spec_tag(s, p, "o"@),
        },
    }
}

/// `LENGTH`, `len` or `l`.
pub open spec fn length_keyword(s: Seq<char>, p: int) -> Option<int> {
    match spec_tag(s, p, "LENGTH"@) {
        Some(q) => Some(q),
        None => match spec_tag(s, p, "len"@) {
            Some(q) => Some(q),
            None => spec_tag(s, p, "l"@),
        },
    }
}

/// An expression at `p` and its value; an expression without a value does
/// not match.
pub open spec fn spec_bound(s: Seq<char>, p: int) -> SpecResult<u64> {
    match spec_expression(s, p) {
        Err(e) => Err(e),
        Ok((e, q)) => match spec_eval(e) {
            Some(v) => Ok((v, q)),
            None => Err(ParseError::Mismatch),
        },
    }
}

/// `name (attributes)? : ORIGIN = expression , LENGTH = expression`
pub open spec fn spec_region(s: Seq<char>, p: int) -> SpecResult<SpecRegion> {
    match spec_symbol(s, p) {
        Err(e) => Err(e),
        Ok((name, q)) => {
            let q1 = skip_ws(s, q);
            let q2 = match spec_attributes(s, q1) {
                Some(x) => x,
                None => q1,
            };
            match ws_char(s, q2, ':') {
                None => Err(ParseError::Mismatch),
                Some(r) => match origin_keyword(s, r) {
                    None => Err(ParseError::Mismatch),
                    Some(t) => match ws_char(s, t, '=') {
                        None => Err(ParseError::Mismatch),
                        Some(u) => match spec_bound(s, u) {
                            Err(e) => Err(e),
                            Ok((origin, v)) => match ws_char(s, v, ',') {
                                None => Err(ParseError::Mismatch),
                                Some(w) => match length_keyword(s, w) {
                                    None => Err(ParseError::Mismatch),
                                    Some(x) => match ws_char(s, x, '=') {
                                        None => Err(ParseError::Mismatch),
                                        Some(y) => match spec_bound(s, y) {
                                            Err(e) => Err(e),
                                            Ok((length, z)) => Ok(
                                                (SpecRegion { name, origin, length }, z),
                                            ),
                                        },
                                    },
                                },
                            },
                        },
                    },
                },
            }
        },
    }
}

fn attributes_at(src: &Source, p: usize) -> (r: Option<usize>)
    requires
        src.wf(),
        p <= src@.len(),
    ensures
        r matches Some(q) ==> spec_attributes(src@, p as int) == Some(q as int) && p < q
            <= src@.len(),
        r is None ==> spec_attributes(src@, p as int) is None,
{
    let n = src.len();
    if !src.is(p, '(') {
        return None;
    }
    let mut q = p + 1;
    while q < n && src.at(q) != ')'
        invariant
            src.wf(),
            n == src@.len(),
            p + 1 <= q <= n,
            run_end(src@, p + 1, not_close_class()) == run_end(src@, q as int, not_close_class()),
        decreases n - q,
    {
        q = q + 1;
    }
    if q < n {
        Some(q + 1)
    } else {
        None
    }
}

fn origin_at(src: &Source, p: usize) -> (r: Option<usize>)
    requires
        src.wf(),
        p <= src@.len(),
    ensures
        r matches Some(q) ==> origin_keyword(src@, p as int) == Some(q as int) && q <= src@.len(),
        r is None ==> origin_keyword(src@, p as int) is None,
{
    match src.tag(p, "ORIGIN") {
        Some(q) => Some(q),
        None => match src.tag(p, "org") {
            Some(q) => Some(q),
            None => src.tag(p, "o"),
        },
    }
}

fn length_at(src: &Source, p: usize) -> (r: Option<usize>)
    requires
        src.wf(),
        p <= src@.len(),
    ensures
        r matches Some(q) ==> length_keyword(src@, p as int) == Some(q as int) && q <= src@.len(),
        r is None ==> length_keyword(src@, p as int) is None,
{
    match src.tag(p, "LENGTH") {
        Some(q) => Some(q),
        None => match src.tag(p, "len") {
            Some(q) => Some(q),
            None => src.tag(p, "l"),
        },
    }
}

fn bound_at(src: &Source, p: usize) -> (r: Result<(u64, usize), ParseError>)
    requires
        src.wf(),
        p <= src@.len(),
    ensures
        agrees(r, spec_bound(src@, p as int)),
        advances(r, p as int, src@.len() as int),
{
    match expression_at(src, p) {
        Err(e) => Err(e),
        Ok((e, q)) => match evaluate_expression(e) {
            Ok(v) => Ok((v, q)),
            Err(_) => Err(ParseError::Mismatch),
        },
    }
}

pub(crate) fn region_at(src: &Source, p: usize) -> (r: Result<(Region, usize), ParseError>)
    requires
        src.wf(),
        p <= src@.len(),
    ensures
        agrees(r, spec_region(src@, p as int)),
        advances(r, p as int, src@.len() as int),
{
    let ((a, b), q) = match symbol_span(src, p) {
        Ok(x) => x,
        Err(e) => {
            return Err(e);
        },
    };
    let q1 = skip(src, q);
    let q2 = match attributes_at(src, q1) {
        Some(x) => x,
        None => q1,
    };
    let r = match ws_char_at(src, q2, ':') {
        Some(r) => r,
        None => {
            return Err(ParseError::Mismatch);
        },
    };
    let t = match origin_at(src, r) {
        Some(t) => t,
        None => {
            return Err(ParseError::Mismatch);
        },
    };
    let u = match ws_char_at(src, t, '=') {
        Some(u) => u,
        None => {
            return Err(ParseError::Mismatch);
        },
    };
    let (origin, v) = match bound_at(src, u) {
        Ok(x) => x,
        Err(e) => {
            return Err(e);
        },
    };
    let w = match ws_char_at(src, v, ',') {
        Some(w) => w,
        None => {
            return Err(ParseError::Mismatch);
        },
    };
    let x = match length_at(src, w) {
        Some(x) => x,
        None => {
            return Err(ParseError::Mismatch);
        },
    };
    let y = match ws_char_at(src, x, '=') {
        Some(y) => y,
        None => {
            return Err(ParseError::Mismatch);
        },
    };
    let (length, z) = match bound_at(src, y) {
        Ok(x) => x,
        Err(e) => {
            return Err(e);
        },
    };
    Ok((Region { name: src.slice(a, b), origin, length }, z))
}

/// Parses a memory-region declaration at the start of `input`.
pub fn region(input: &str) -> (r: Result<(&str, Region), ParseError>)
    ensures
        outcome(r, input@, spec_region(input@, 0)),
{
    let src = Source::new(input);
    let r = region_at(&src, 0);
    finish(&src, r)
}

} // verus!
