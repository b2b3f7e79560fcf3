//! A small predicate algebra over byte strings.
use vstd::prelude::*;
use vstd::utf8::encode_utf8;

verus! {

/// Whether `pat` occurs as a contiguous run of bytes in `text`.
pub open spec fn occurs_in(pat: Seq<u8>, text: Seq<u8>) -> bool {
    exists|i: int|
        0 <= i && i + pat.len() <= text.len() && #[trigger] text.subrange(i, i + pat.len()) == pat
}

/// Whether every pattern of `pats` occurs in `text`.
pub open spec fn occurs_every(pats: Seq<Seq<char>>, text: Seq<u8>) -> bool {
    forall|i: int| 0 <= i < pats.len() ==> occurs_in(#[trigger] encode_utf8(pats[i]), text)
}

/// Whether `text` begins with `pre`.
pub open spec fn begins_with(pre: Seq<u8>, text: Seq<u8>) -> bool {
    pre.len() <= text.len() && text.subrange(0, pre.len() as int) == pre
}

/// The mathematical content of a matcher: its patterns as character sequences.
pub enum MatcherView {
    Any,
    AllBut(Seq<char>),
    ContainsAll(Seq<Seq<char>>),
    Exact(Seq<char>),
    StartsWith(Seq<char>),
    Contains(Seq<char>),
}

impl MatcherView {
    /// What the matcher says of an optional candidate, compared byte by byte
    /// over the UTF-8 encoding of the patterns.
    pub open spec fn accepts(self, input: Option<Seq<u8>>) -> bool {
        match input {
            None => self == MatcherView::Any,
            Some(b) => match self {
                MatcherView::Any => true,
                MatcherView::AllBut(s) => b != encode_utf8(s),
                MatcherView::ContainsAll(all) => occurs_every(all, b),
                MatcherView::Exact(s) => b == encode_utf8(s),
                MatcherView::StartsWith(s) => begins_with(encode_utf8(s), b),
                MatcherView::Contains(s) => occurs_in(encode_utf8(s), b),
            },
        }
    }
}

/// A matcher on an optional byte string (a host-path key or a parameter name).
#[derive(Debug)]
pub enum M {
    /// Matches anything, absence included.
    Any,
    /// Matches a present value that differs from the pattern.
    AllBut(&'static str),
    /// Matches a present value that contains every pattern.
    ContainsAll(Vec<&'static str>),
    /// Matches a present value equal to the pattern.
    Exact(&'static str),
    /// Matches a present value that begins with the pattern.
    StartsWith(&'static str),
    /// Matches a present value that contains the pattern.
    Contains(&'static str),
}

impl View for M {
    type V = MatcherView;

    open spec fn view(&self) -> MatcherView {
        match self {
            M::Any => MatcherView::Any,
            M::AllBut(s) => MatcherView::AllBut(s@),
            M::ContainsAll(all) => MatcherView::ContainsAll(all@.map_values(|s: &'static str| s@)),
            M::Exact(s) => MatcherView::Exact(s@),
            M::StartsWith(s) => MatcherView::StartsWith(s@),
            M::Contains(s) => MatcherView::Contains(s@),
        }
    }
}

/// The bytes of an optional slice.
pub open spec fn opt_bytes(input: Option<&[u8]>) -> Option<Seq<u8>> {
    match input {
        Some(b) => Some(b@),
        None => None,
    }
}

/// The UTF-8 bytes of an optional string.
pub open spec fn opt_str_bytes(input: Option<&str>) -> Option<Seq<u8>> {
    match input {
        Some(s) => Some(encode_utf8(s@)),
        None => None,
    }
}

/// Whether `pat` stands in `text` from position `start` on.
fn equal_at(text: &[u8], start: usize, pat: &[u8]) -> (r: bool)
    requires
        start + pat@.len() <= text@.len(),
    ensures
        r == (text@.subrange(start as int, start + pat@.len()) == pat@),
{
    let n = text.len();
    let mut k: usize = 0;
    while k < pat.len()
        invariant
            k <= pat@.len(),
            n == text@.len(),
            start + pat@.len() <= text@.len(),
            forall|j: int| 0 <= j < k ==> text@[start + j] == pat@[j],
        decreases pat@.len() - k,
    {
        if text[start + k] != pat[k] {
            assert(text@.subrange(start as int, start + pat@.len())[k as int] != pat@[k as int]);
            return false;
        }
        k += 1;
    }
    assert(text@.subrange(start as int, start + pat@.len()) =~= pat@);
    true
}

/// Whether two byte strings are equal.
pub(crate) fn same_bytes(a: &[u8], b: &[u8]) -> (r: bool)
    ensures
        r == (a@ == b@),
{
    if a.len() != b.len() {
        return false;
    }
    let r = equal_at(a, 0, b);
    assert(a@.subrange(0, b@.len() as int) =~= a@);
    r
}

/// Whether `pat` occurs anywhere in `text`.
pub fn occurs(pat: &[u8], text: &[u8]) -> (r: bool)
    ensures
        r == occurs_in(pat@, text@),
{
    if pat.len() > text.len() {
        return false;
    }
    let last = text.len() - pat.len();
    let mut i: usize = 0;
    while i < last
        invariant
            i <= last,
            last + pat@.len() == text@.len(),
            forall|j: int| 0 <= j < i ==> #[trigger] text@.subrange(j, j + pat@.len()) != pat@,
        decreases last - i,
    {
        if equal_at(text, i, pat) {
            return true;
        }
        i += 1;
    }
    if equal_at(text, last, pat) {
        return true;
    }
    assert forall|j: int| 0 <= j && j + pat@.len() <= text@.len() implies
        #[trigger] text@.subrange(j, j + pat@.len()) != pat@ by {
        assert(j <= i);
    }
    false
}

/// Whether every pattern of `all` occurs in `text`.
pub(crate) fn occurs_all(all: &Vec<&'static str>, text: &[u8]) -> (r: bool)
    ensures
        r == occurs_every(all@.map_values(|s: &'static str| s@), text@),
{
    let ghost pats = all@.map_values(|s: &'static str| s@);
    let mut i: usize = 0;
    while i < all.len()
        invariant
            i <= all@.len(),
            pats == all@.map_values(|s: &'static str| s@),
            forall|j: int| 0 <= j < i ==> occurs_in(#[trigger] encode_utf8(pats[j]), text@),
        decreases all@.len() - i,
    {
        assert(pats[i as int] == all@[i as int]@);
        if !occurs(all[i].as_bytes(), text) {
            return false;
        }
        i += 1;
    }
    true
}

impl M {
    /// Matches an optional string by its UTF-8 bytes.
    pub fn matches_str(&self, input: Option<&str>) -> (r: bool)
        ensures
            r == self@.accepts(opt_str_bytes(input)),
    {
        match input {
            Some(s) => self.matches(Some(s.as_bytes())),
            None => self.matches(None),
        }
    }

    /// Matches an optional byte string.
    pub fn matches(&self, input: Option<&[u8]>) -> (r: bool)
        ensures
            r == self@.accepts(opt_bytes(input)),
    {
        match input {
            None => matches!(self, M::Any),
            Some(b) => match self {
                M::Any => true,
                M::AllBut(s) => {
                    let p = s.as_bytes();
                    let same = p.len() == b.len() && equal_at(b, 0, p);
                    proof {
                        if p@.len() == b@.len() {
                            assert(b@.subrange(0, p@.len() as int) =~= b@);
                        }
                    }
                    !same
                },
                M::Exact(s) => {
                    let p = s.as_bytes();
                    let same = p.len() == b.len() && equal_at(b, 0, p);
                    proof {
                        if p@.len() == b@.len() {
                            assert(b@.subrange(0, p@.len() as int) =~= b@);
                        }
                    }
                    same
                },
                M::StartsWith(s) => {
                    let p = s.as_bytes();
                    p.len() <= b.len() && equal_at(b, 0, p)
                },
                M::Contains(s) => occurs(s.as_bytes(), b),
                M::ContainsAll(all) => occurs_all(all, b),
            },
        }
    }
}

} // verus!
