//! Numeric literals: hexadecimal with a `0x` prefix, or a run of digits with an
//! optional radix marker, each optionally scaled by `K` or `M`.
use vstd::prelude::*;

use crate::text::{
    advances, agrees, alphanumeric, char_is, finish, is_alphanumeric, outcome, run_end, ParseError,
    Source, SpecResult,
};

verus! {

/// Value of a character read as a digit; 36 for a character that is no digit
/// in any radix.
pub open spec fn digit_value(c: char) -> int {
    if '0' <= c <= '9' {
        c as int - '0' as int
    } else if 'a' <= c <= 'z' {
        c as int - 'a' as int + 10
    } else if 'A' <= c <= 'Z' {
        c as int - 'A' as int + 10
    } else {
        36
    }
}

/// Value of a string of digits in the given radix.
pub open spec fn digits_value(t: Seq<char>, radix: int) -> int
    decreases t.len(),
{
    if t.len() == 0 {
        0
    } else {
        digits_value(t.drop_last(), radix) * radix + digit_value(t.last())
    }
}

pub open spec fn all_digits(t: Seq<char>, radix: int) -> bool {
    forall|i: int| 0 <= i < t.len() ==> #[trigger] digit_value(t[i]) < radix
}

/// A non-empty string of digits of the radix whose value fits in 64 bits, and
/// that value.
pub open spec fn radix_value(t: Seq<char>, radix: int) -> Option<u64> {
    if t.len() > 0 && all_digits(t, radix) && digits_value(t, radix) <= u64::MAX {
        Some(digits_value(t, radix) as u64)
    } else {
        None
    }
}

/// Octal when the digits start with `0`, decimal otherwise.
pub open spec fn oct_or_dec(t: Seq<char>) -> Option<u64> {
    if t.len() > 0 && t[0] == '0' {
        radix_value(t, 8)
    } else {
        radix_value(t, 10)
    }
}

/// A value multiplied by `m`, when the product fits in 64 bits.
pub open spec fn scaled(v: Option<u64>, m: int) -> Option<u64> {
    match v {
        Some(x) => if x * m <= u64::MAX {
            Some((x * m) as u64)
        } else {
            None
        },
        None => None,
    }
}

pub open spec fn is_hex_digit(c: char) -> bool {
    ('0' <= c <= '9') || ('a' <= c <= 'f') || ('A' <= c <= 'F')
}

pub open spec fn hex_class() -> spec_fn(char) -> bool {
    |c: char| is_hex_digit(c)
}

/// The characters that a suffixed literal is made of.
pub open spec fn num_or_suffix_char(c: char) -> bool {
    is_hex_digit(c) || c == 'h' || c == 'H' || c == 'o' || c == 'O' || c == 'k' || c == 'K'
        || c == 'm' || c == 'M'
}

pub open spec fn num_class() -> spec_fn(char) -> bool {
    |c: char| num_or_suffix_char(c)
}

/// The factor that a `K` or `M` suffix stands for; 1 for any other character.
pub open spec fn multiplier(c: char) -> int {
    if c == 'k' || c == 'K' {
        1024
    } else if c == 'm' || c == 'M' {
        1048576
    } else {
        1
    }
}

/// `0x` or `0X`, hexadecimal digits, an optional `K` or `M`. Once the digits
/// are read, an overflow or a following letter or digit is a committed failure.
pub open spec fn spec_prefixed_hex(s: Seq<char>, p: int) -> SpecResult<u64> {
    if !(char_is(s, p, '0') && (char_is(s, p + 1, 'x') || char_is(s, p + 1, 'X'))) {
        Err(ParseError::Mismatch)
    } else {
        let q = run_end(s, p + 2, hex_class());
        if q == p + 2 {
            Err(ParseError::Mismatch)
        } else {
            match radix_value(s.subrange(p + 2, q), 16) {
                None => Err(ParseError::Fatal),
                Some(v) => {
                    let m = if q < s.len() {
                        multiplier(s[q])
                    } else {
                        1
                    };
                    let r = if m == 1 {
                        q
                    } else {
                        q + 1
                    };
                    if r < s.len() && alphanumeric(s[r]) {
                        Err(ParseError::Fatal)
                    } else if v * m > u64::MAX {
                        Err(ParseError::Fatal)
                    } else {
                        Ok(((v * m) as u64, r))
                    }
                },
            }
        }
    }
}

/// Value of a run of literal characters, read by its last character: a radix
/// marker `b`, `o`, `d` or `h`, a scale `K` or `M` over an octal-or-decimal
/// body, or else the whole run as octal (leading `0`) or decimal. A single
/// character is decimal.
pub open spec fn suffixed_value(t: Seq<char>) -> Option<u64> {
    let last = t.last();
    let body = t.drop_last();
    if t.len() == 1 {
        radix_value(t, 10)
    } else if last == 'b' || last == 'B' {
        radix_value(body, 2)
    } else if last == 'o' || last == 'O' {
        radix_value(body, 8)
    } else if last == 'd' || last == 'D' {
        radix_value(body, 10)
    } else if last == 'h' || last == 'H' {
        radix_value(body, 16)
    } else if last == 'k' || last == 'K' {
        scaled(oct_or_dec(body), 1024)
    } else if last == 'm' || last == 'M' {
        scaled(oct_or_dec(body), 1048576)
    } else {
        oct_or_dec(t)
    }
}

/// The longest run of literal characters, read by `suffixed_value`.
pub open spec fn spec_suffixed_num(s: Seq<char>, p: int) -> SpecResult<u64> {
    let q = run_end(s, p, num_class());
    if p < 0 || q <= p {
        Err(ParseError::Mismatch)
    } else {
        match suffixed_value(s.subrange(p, q)) {
            Some(v) => Ok((v, q)),
            None => Err(ParseError::Mismatch),
        }
    }
}

/// A numeric literal: the prefixed hexadecimal form first, then the suffixed form.
pub open spec fn spec_number(s: Seq<char>, p: int) -> SpecResult<u64> {
    match spec_prefixed_hex(s, p) {
        Err(ParseError::Mismatch) => spec_suffixed_num(s, p),
        r => r,
    }
}

proof fn lemma_digits_grow(t: Seq<char>, radix: int, i: int)
    requires
        radix >= 1,
        0 <= i <= t.len(),
        all_digits(t, radix),
    ensures
        0 <= digits_value(t.subrange(0, i), radix) <= digits_value(t, radix),
    decreases t.len() - i,
{
    assert(forall|k: int| 0 <= k < t.len() ==> digit_value(t[k]) >= 0);
    if i < t.len() {
        lemma_digits_grow(t, radix, i + 1);
        let a = t.subrange(0, i);
        let b = t.subrange(0, i + 1);
        assert(b.drop_last() =~= a);
        assert(digit_value(b.last()) >= 0);
        lemma_digits_nonneg(a, radix);
        let x = digits_value(a, radix);
        assert(x * radix + digit_value(b.last()) >= x) by (nonlinear_arith)
            requires
                x >= 0,
                radix >= 1,
                digit_value(b.last()) >= 0,
        ;
    } else {
        assert(t.subrange(0, i) =~= t);
        lemma_digits_nonneg(t, radix);
    }
}

proof fn lemma_digits_nonneg(t: Seq<char>, radix: int)
    requires
        radix >= 1,
        all_digits(t, radix),
    ensures
        digits_value(t, radix) >= 0,
    decreases t.len(),
{
    if t.len() > 0 {
        let a = t.drop_last();
        assert(all_digits(a, radix)) by {
            assert forall|i: int| 0 <= i < a.len() implies #[trigger] digit_value(a[i]) < radix by {
                assert(a[i] == t[i]);
            }
        }
        lemma_digits_nonneg(a, radix);
        assert(digit_value(t[t.len() - 1]) >= 0);
        let x = digits_value(a, radix);
        assert(x * radix >= 0) by (nonlinear_arith)
            requires
                x >= 0,
                radix >= 1,
        ;
    }
}

fn digit_of(c: char) -> (d: u64)
    ensures
        d == digit_value(c),
{
    if '0' <= c && c <= '9' {
        (c as u32 - '0' as u32) as u64
    } else if 'a' <= c && c <= 'z' {
        (c as u32 - 'a' as u32 + 10) as u64
    } else if 'A' <= c && c <= 'Z' {
        (c as u32 - 'A' as u32 + 10) as u64
    } else {
        36
    }
}

/// Reads the characters between two positions as digits of a radix.
fn radix_at(src: &Source, from: usize, to: usize, radix: u64) -> (r: Option<u64>)
    requires
        src.wf(),
        from <= to <= src@.len(),
        2 <= radix <= 16,
    ensures
        r == radix_value(src@.subrange(from as int, to as int), radix as int),
{
    let ghost t = src@.subrange(from as int, to as int);
    let mut acc: u64 = 0;
    let mut over = false;
    let mut i = from;
    while i < to
        invariant
            src.wf(),
            from <= i <= to <= src@.len(),
            2 <= radix <= 16,
            t == src@.subrange(from as int, to as int),
            all_digits(t.subrange(0, i - from), radix as int),
            !over ==> acc == digits_value(t.subrange(0, i - from), radix as int),
            over ==> digits_value(t.subrange(0, i - from), radix as int) > u64::MAX,
        decreases to - i,
    {
        let d = digit_of(src.at(i));
        let ghost a = t.subrange(0, i - from);
        let ghost b = t.subrange(0, i + 1 - from);
        assert(b.drop_last() =~= a);
        assert(b.last() == src@[i as int]);
        if d >= radix {
            proof {
                assert(digit_value(t[i - from]) >= radix);
            }
            return None;
        }
        assert(all_digits(b, radix as int)) by {
            assert forall|k: int| 0 <= k < b.len() implies #[trigger] digit_value(b[k]) < radix by {
                if k < b.len() - 1 {
                    assert(b[k] == a[k]);
                }
            }
        }
        proof {
            lemma_digits_nonneg(a, radix as int);
        }
        if !over {
            match acc.checked_mul(radix) {
                Some(m) => match m.checked_add(d) {
                    Some(v) => {
                        acc = v;
                    },
                    None => {
                        over = true;
                    },
                },
                None => {
                    proof {
                        let x = digits_value(a, radix as int);
                        assert(x * radix + d >= x * radix) by (nonlinear_arith)
                            requires
                                d >= 0,
                        ;
                    }
                    over = true;
                },
            }
        } else {
            proof {
                let x = digits_value(a, radix as int);
                assert(x * radix + d >= x) by (nonlinear_arith)
                    requires
                        x >= 0,
                        radix >= 1,
                        d >= 0,
                ;
            }
        }
        i = i + 1;
    }
    assert(t.subrange(0, to - from) =~= t);
    if over || from == to {
        None
    } else {
        Some(acc)
    }
}

fn multiplier_of(c: char) -> (m: u64)
    ensures
        m == multiplier(c),
{
    if c == 'k' || c == 'K' {
        1024
    } else if c == 'm' || c == 'M' {
        1048576
    } else {
        1
    }
}

fn class_end_hex(src: &Source, p: usize) -> (q: usize)
    requires
        src.wf(),
        p <= src@.len(),
    ensures
        q == run_end(src@, p as int, hex_class()),
        p <= q <= src@.len(),
{
    let n = src.len();
    let mut q = p;
    while q < n && is_hex(src.at(q))
        invariant
            src.wf(),
            n == src@.len(),
            p <= q <= n,
            run_end(src@, p as int, hex_class()) == run_end(src@, q as int, hex_class()),
        decreases n - q,
    {
        q = q + 1;
    }
    q
}

fn class_end_num(src: &Source, p: usize) -> (q: usize)
    requires
        src.wf(),
        p <= src@.len(),
    ensures
        q == run_end(src@, p as int, num_class()),
        p <= q <= src@.len(),
{
    let n = src.len();
    let mut q = p;
    while q < n && is_num_or_suffix(src.at(q))
        invariant
            src.wf(),
            n == src@.len(),
            p <= q <= n,
            run_end(src@, p as int, num_class()) == run_end(src@, q as int, num_class()),
        decreases n - q,
    {
        q = q + 1;
    }
    q
}

fn is_hex(c: char) -> (r: bool)
    ensures
        r == is_hex_digit(c),
{
    ('0' <= c && c <= '9') || ('a' <= c && c <= 'f') || ('A' <= c && c <= 'F')
}

fn is_num_or_suffix(c: char) -> (r: bool)
    ensures
        r == num_or_suffix_char(c),
{
    is_hex(c) || c == 'h' || c == 'H' || c == 'o' || c == 'O' || c == 'k' || c == 'K' || c == 'm'
        || c == 'M'
}

fn prefixed_hex(src: &Source, p: usize) -> (r: Result<(u64, usize), ParseError>)
    requires
        src.wf(),
        p <= src@.len(),
    ensures
        agrees(r, spec_prefixed_hex(src@, p as int)),
        advances(r, p as int, src@.len() as int),
{
    let n = src.len();
    if !(p < n && src.is(p, '0') && (src.is(p + 1, 'x') || src.is(p + 1, 'X'))) {
        return Err(ParseError::Mismatch);
    }
    let q = class_end_hex(src, p + 2);
    if q == p + 2 {
        return Err(ParseError::Mismatch);
    }
    match radix_at(src, p + 2, q, 16) {
        None => Err(ParseError::Fatal),
        Some(v) => {
            let m = if q < n {
                multiplier_of(src.at(q))
            } else {
                1
            };
            let r = if m == 1 {
                q
            } else {
                q + 1
            };
            if r < n && is_alphanumeric(src.at(r)) {
                Err(ParseError::Fatal)
            } else {
                match v.checked_mul(m) {
                    Some(x) => Ok((x, r)),
                    None => Err(ParseError::Fatal),
                }
            }
        },
    }
}

fn parse_oct_or_dec(src: &Source, from: usize, to: usize) -> (r: Option<u64>)
    requires
        src.wf(),
        from <= to <= src@.len(),
    ensures
        r == oct_or_dec(src@.subrange(from as int, to as int)),
{
    if from < to && src.at(from) == '0' {
        radix_at(src, from, to, 8)
    } else {
        radix_at(src, from, to, 10)
    }
}

fn scale(v: Option<u64>, m: u64) -> (r: Option<u64>)
    ensures
        r == scaled(v, m as int),
{
    match v {
        Some(x) => x.checked_mul(m),
        None => None,
    }
}

fn suffixed_num(src: &Source, p: usize) -> (r: Result<(u64, usize), ParseError>)
    requires
        src.wf(),
        p <= src@.len(),
    ensures
        agrees(r, spec_suffixed_num(src@, p as int)),
        advances(r, p as int, src@.len() as int),
{
    let q = class_end_num(src, p);
    if q <= p {
        return Err(ParseError::Mismatch);
    }
    let ghost t = src@.subrange(p as int, q as int);
    let last = src.at(q - 1);
    assert(t.last() == last);
    assert(t.drop_last() =~= src@.subrange(p as int, q - 1));
    let v = if q - p == 1 {
        radix_at(src, p, q, 10)
    } else if last == 'b' || last == 'B' {
        radix_at(src, p, q - 1, 2)
    } else if last == 'o' || last == 'O' {
        radix_at(src, p, q - 1, 8)
    } else if last == 'd' || last == 'D' {
        radix_at(src, p, q - 1, 10)
    } else if last == 'h' || last == 'H' {
        radix_at(src, p, q - 1, 16)
    } else if last == 'k' || last == 'K' {
        scale(parse_oct_or_dec(src, p, q - 1), 1024)
    } else if last == 'm' || last == 'M' {
        scale(parse_oct_or_dec(src, p, q - 1), 1048576)
    } else {
        parse_oct_or_dec(src, p, q)
    };
    match v {
        Some(x) => Ok((x, q)),
        None => Err(ParseError::Mismatch),
    }
}

pub(crate) fn number_at(src: &Source, p: usize) -> (r: Result<(u64, usize), ParseError>)
    requires
        src.wf(),
        p <= src@.len(),
    ensures
        agrees(r, spec_number(src@, p as int)),
        advances(r, p as int, src@.len() as int),
{
    match prefixed_hex(src, p) {
        Err(ParseError::Mismatch) => suffixed_num(src, p),
        r => r,
    }
}

/// Parses a numeric literal at the start of `input`.
pub fn number(input: &str) -> (r: Result<(&str, u64), ParseError>)
    ensures
        outcome(r, input@, spec_number(input@, 0)),
{
    let src = Source::new(input);
    let r = number_at(&src, 0);
    finish(&src, r)
}

} // verus!
