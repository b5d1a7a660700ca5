//! Input handling shared by every grammar rule: the source text as characters,
//! literal matching and the outcome type of a rule.
use vstd::prelude::*;
use vstd::string::*;
use vstd::std_specs::iter::IteratorSpec;

verus! {

/// Why a grammar rule did not produce a value.
///
/// `Mismatch` lets an enclosing alternative try its next branch; `Fatal` is a
/// committed failure that aborts every enclosing rule.
#[derive(Debug, Clone, Copy, PartialEq, Eq)]
pub enum ParseError {
    Mismatch,
    Fatal,
}

/// The mathematical outcome of a rule: the value and the position after it.
pub type SpecResult<V> = Result<(V, int), ParseError>;

/// Script text together with its characters, for random access.
pub struct Source<'a> {
    text: &'a str,
    chars: Vec<char>,
    ascii: bool,
}

impl<'a> Source<'a> {
    /// The characters of the text.
    pub closed spec fn view(&self) -> Seq<char> {
        self.chars@
    }

    /// The characters are those of the text, and the ASCII flag is accurate.
    pub closed spec fn wf(&self) -> bool {
        &&& self.chars@ == self.text@
        &&& self.chars@.len() <= usize::MAX
        &&& self.ascii == is_ascii(self.text)
    }

    /// Reads the characters of `text`.
    pub fn new(text: &'a str) -> (r: Source<'a>)
        ensures
            r.wf(),
            r@ == text@,
    {
        let mut chars: Vec<char> = Vec::new();
        let mut it = text.chars();
        proof {
            broadcast use vstd::string::group_string_axioms;
        }
        loop
            invariant
                chars.len() <= text@.len(),
                it.remaining() == text@.subrange(chars.len() as int, text@.len() as int),
                chars@ == text@.subrange(0, chars.len() as int),
            ensures
                chars@ == text@,
            decreases text@.len() - chars.len(),
        {
            match it.next() {
                Some(c) => {
                    assert(c == text@[chars.len() as int]);
                    chars.push(c);
                    assert(chars@ =~= text@.subrange(0, chars.len() as int));
                },
                None => {
                    assert(chars@ =~= text@);
                    break;
                },
            }
        }
        assert(chars@.len() == chars.len());
        let ascii = text.is_ascii();
        Source { text, chars, ascii }
    }
}

/// Position after the literal `t` when the text at `p` starts with it.
pub open spec fn spec_tag(s: Seq<char>, p: int, t: Seq<char>) -> Option<int> {
    if 0 <= p && p + t.len() <= s.len() && s.subrange(p, p + t.len()) == t {
        Some(p + t.len())
    } else {
        None
    }
}

/// Whether the character at `p` is `c`.
pub open spec fn char_is(s: Seq<char>, p: int, c: char) -> bool {
    0 <= p < s.len() && s[p] == c
}

/// End of the longest run, from `p` on, of characters for which `f` holds.
pub open spec fn run_end(s: Seq<char>, p: int, f: spec_fn(char) -> bool) -> int
    decreases s.len() - p,
{
    if p < 0 || p >= s.len() || !f(s[p]) {
        p
    } else {
        run_end(s, p + 1, f)
    }
}

/// Names what `char::is_alphanumeric` decides for a character.
pub uninterp spec fn alphanumeric(c: char) -> bool;

/// Names what `char::is_alphabetic` decides for a character.
pub uninterp spec fn alphabetic(c: char) -> bool;

/// Relies on `char::is_alphanumeric`: Unicode Alphabetic or Numeric, a function
/// of the character alone.
#[verifier::external_body]
pub(crate) fn is_alphanumeric(c: char) -> (r: bool)
    ensures
        r == alphanumeric(c),
{
    c.is_alphanumeric()
}

/// Relies on `char::is_alphabetic`: the Unicode Alphabetic property, a function
/// of the character alone.
#[verifier::external_body]
pub(crate) fn is_alphabetic(c: char) -> (r: bool)
    ensures
        r == alphabetic(c),
{
    c.is_alphabetic()
}

/// Relates a rule's executable result, over positions, to its mathematical outcome.
pub open spec fn agrees<T: DeepView>(r: Result<(T, usize), ParseError>, m: SpecResult<T::V>) -> bool {
    match r {
        Ok((v, q)) => m == Ok::<(T::V, int), ParseError>((v.deep_view(), q as int)),
        Err(e) => m == Err::<(T::V, int), ParseError>(e),
    }
}

/// A successful rule has consumed at least one character of the text.
pub open spec fn advances<T>(r: Result<(T, usize), ParseError>, p: int, n: int) -> bool {
    r matches Ok((_, q)) ==> p < q <= n
}

/// Relates a rule applied to a whole text to its mathematical outcome: on
/// success the rest of the text and the value, on failure the same failure.
pub open spec fn outcome<T: DeepView>(
    r: Result<(&str, T), ParseError>,
    s: Seq<char>,
    m: SpecResult<T::V>,
) -> bool {
    match m {
        Ok((v, q)) => match r {
            Ok((rest, x)) => rest@ == s.subrange(q, s.len() as int) && x.deep_view() == v,
            Err(_) => false,
        },
        Err(e) => r == Err::<(&str, T), ParseError>(e),
    }
}

/// Hands a rule's result back in terms of the text: the rest of the text
/// instead of a position.
pub(crate) fn finish<'a, T: DeepView>(src: &Source<'a>, r: Result<(T, usize), ParseError>) -> (out:
    Result<(&'a str, T), ParseError>)
    requires
        src.wf(),
        r matches Ok((_, q)) ==> q <= src@.len(),
    ensures
        forall|m: SpecResult<T::V>| agrees(r, m) ==> #[trigger] outcome(out, src@, m),
{
    match r {
        Ok((v, q)) => Ok((src.rest(q), v)),
        Err(e) => Err(e),
    }
}

impl<'a> Source<'a> {
    pub fn len(&self) -> (n: usize)
        requires
            self.wf(),
        ensures
            n == self@.len(),
            self@.len() <= usize::MAX,
    {
        self.chars.len()
    }

    pub fn at(&self, p: usize) -> (c: char)
        requires
            self.wf(),
            p < self@.len(),
        ensures
            c == self@[p as int],
            self@.len() <= usize::MAX,
    {
        self.chars[p]
    }

    pub fn is(&self, p: usize, c: char) -> (r: bool)
        requires
            self.wf(),
        ensures
            r == char_is(self@, p as int, c),
            self@.len() <= usize::MAX,
    {
        p < self.chars.len() && self.chars[p] == c
    }

    /// Matches the literal `t` at `p`.
    pub fn tag(&self, p: usize, t: &str) -> (r: Option<usize>)
        requires
            self.wf(),
            p <= self@.len(),
        ensures
            r matches Some(q) ==> spec_tag(self@, p as int, t@) == Some(q as int),
            r is None ==> spec_tag(self@, p as int, t@) is None,
    {
        let mut it = t.chars();
        let mut i: usize = 0;
        proof {
            broadcast use vstd::string::group_string_axioms;
        }
        loop
            invariant
                self.wf(),
                p <= self@.len(),
                i <= t@.len(),
                p + i <= self.chars.len(),
                it.remaining() == t@.subrange(i as int, t@.len() as int),
                self@.subrange(p as int, p + i) == t@.subrange(0, i as int),
            decreases t@.len() - i,
        {
            match it.next() {
                Some(c) => {
                    if p + i < self.chars.len() && self.chars[p + i] == c {
                        assert(self@.subrange(p as int, p + i + 1) =~= t@.subrange(0, i + 1));
                        i = i + 1;
                    } else {
                        assert(spec_tag(self@, p as int, t@) is None) by {
                            if p + t@.len() <= self@.len() && self@.subrange(p as int, p + t@.len()) == t@ {
                                assert(self@.subrange(p as int, p + t@.len())[i as int] == self@[p + i]);
                            }
                        }
                        return None;
                    }
                },
                None => {
                    assert(t@.subrange(0, i as int) =~= t@);
                    return Some(p + i);
                },
            }
        }
    }

    /// The text between two positions.
    pub fn slice(&self, from: usize, to: usize) -> (r: String)
        requires
            self.wf(),
            from <= to <= self@.len(),
        ensures
            r@ == self@.subrange(from as int, to as int),
    {
        if self.ascii {
            self.text.substring_ascii(from, to).to_owned()
        } else {
            self.text.substring_char(from, to).to_owned()
        }
    }

    /// The text between two positions, borrowed from the script.
    pub fn piece(&self, from: usize, to: usize) -> (r: &'a str)
        requires
            self.wf(),
            from <= to <= self@.len(),
        ensures
            r@ == self@.subrange(from as int, to as int),
    {
        if self.ascii {
            self.text.substring_ascii(from, to)
        } else {
            self.text.substring_char(from, to)
        }
    }

    /// The text from a position to the end.
    pub fn rest(&self, from: usize) -> (r: &'a str)
        requires
            self.wf(),
            from <= self@.len(),
        ensures
            r@ == self@.subrange(from as int, self@.len() as int),
    {
        let n = self.chars.len();
        if self.ascii {
            self.text.substring_ascii(from, n)
        } else {
            self.text.substring_char(from, n)
        }
    }
}

} // verus!
