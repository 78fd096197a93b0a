//! Trimming and prefix tests on text, as `str::trim` and friends do them.

use vstd::prelude::*;

use crate::source::ws_end;
use crate::text::{chars_of, is_unicode_ws, string_of_range, unicode_ws};

verus! {

/// The end of `s[..j]` once trailing whitespace is dropped.
pub open spec fn ws_start_back(s: Seq<char>, j: int) -> int
    decreases j,
{
    if 0 < j <= s.len() && is_unicode_ws(s[j - 1]) {
        ws_start_back(s, j - 1)
    } else {
        j
    }
}

/// `s` without leading and trailing whitespace.
pub open spec fn trimmed(s: Seq<char>) -> Seq<char> {
    let start = ws_end(s, 0);
    let end = ws_start_back(s, s.len() as int);
    if end <= start {
        Seq::empty()
    } else {
        s.subrange(start, end)
    }
}

pub open spec fn has_prefix(s: Seq<char>, p: Seq<char>) -> bool {
    p.len() <= s.len() && s.subrange(0, p.len() as int) == p
}

/// The first whitespace position at or after `i`.
pub open spec fn first_ws_from(s: Seq<char>, i: int) -> Option<int>
    decreases s.len() - i,
{
    if i < 0 || i >= s.len() {
        None
    } else if is_unicode_ws(s[i]) {
        Some(i)
    } else {
        first_ws_from(s, i + 1)
    }
}

pub proof fn lemma_first_ws_from(s: Seq<char>, i: int)
    requires
        0 <= i,
    ensures
        first_ws_from(s, i) matches Some(j) ==> i <= j < s.len() && is_unicode_ws(s[j]),
    decreases s.len() - i,
{
    if i < s.len() && !is_unicode_ws(s[i]) {
        lemma_first_ws_from(s, i + 1);
    }
}

pub proof fn lemma_ws_start_back_bounds(s: Seq<char>, j: int)
    requires
        0 <= j <= s.len(),
    ensures
        0 <= ws_start_back(s, j) <= j,
    decreases j,
{
    if 0 < j && is_unicode_ws(s[j - 1]) {
        lemma_ws_start_back_bounds(s, j - 1);
    }
}

/// The text of `s` without leading and trailing whitespace.
pub fn trim(s: &str) -> (r: String)
    ensures
        r@ == trimmed(s@),
{
    let chars = chars_of(s);
    let t = chars.as_slice();
    let n = t.len();
    let mut start: usize = 0;
    while start < n && unicode_ws(t[start])
        invariant
            n == t@.len(),
            0 <= start <= n,
            ws_end(t@, start as int) == ws_end(t@, 0),
        decreases n - start,
    {
        start = start + 1;
    }
    let mut end: usize = n;
    while end > 0 && unicode_ws(t[end - 1])
        invariant
            n == t@.len(),
            0 <= end <= n,
            ws_start_back(t@, end as int) == ws_start_back(t@, n as int),
        decreases end,
    {
        end = end - 1;
    }
    if end <= start {
        String::new()
    } else {
        string_of_range(t, start, end)
    }
}

/// Whether `s` starts with `p`.
pub fn starts_with(s: &str, p: &str) -> (r: bool)
    ensures
        r == has_prefix(s@, p@),
{
    let a = chars_of(s);
    let b = chars_of(p);
    if b.len() > a.len() {
        return false;
    }
    crate::properties::range_equals(a.as_slice(), 0, b.len(), b.as_slice())
}

/// `s[from..]`.
pub fn suffix_from(s: &str, from: usize) -> (r: String)
    requires
        from <= s@.len(),
    ensures
        r@ == s@.subrange(from as int, s@.len() as int),
{
    let chars = chars_of(s);
    string_of_range(chars.as_slice(), from, chars.len())
}

/// Whether two texts are equal.
pub fn same_text(a: &str, b: &str) -> (r: bool)
    ensures
        r == (a@ == b@),
{
    let x = chars_of(a);
    let y = chars_of(b);
    if x.len() != y.len() {
        return false;
    }
    let r = crate::properties::range_equals(x.as_slice(), 0, x.len(), y.as_slice());
    assert(x@.subrange(0, x@.len() as int) == x@);
    r
}

} // verus!
