//! Matching fixed tokens inside a string, position by position.
use vstd::prelude::*;

verus! {

/// `t` occurs in `s` at character position `i`.
pub open spec fn starts_at(s: Seq<char>, i: int, t: Seq<char>) -> bool {
    0 <= i && i + t.len() <= s.len() && s.subrange(i, i + t.len()) == t
}

/// Whether the token `t` occurs in `s` at character position `pos`; if so,
/// the position just past it.
pub fn tag_at(s: &str, pos: usize, t: &str) -> (r: Option<usize>)
    ensures
        match r {
            Some(end) => starts_at(s@, pos as int, t@) && end == pos + t@.len(),
            None => !starts_at(s@, pos as int, t@),
        },
{
    let n = s.unicode_len();
    let m = t.unicode_len();
    if pos > n || m > n - pos {
        return None;
    }
    let mut k: usize = 0;
    while k < m
        invariant
            k <= m,
            m == t@.len(),
            n == s@.len(),
            pos + m <= n,
            forall|q: int| 0 <= q < k ==> s@[pos + q] == t@[q],
        decreases m - k,
    {
        if s.get_char(pos + k) != t.get_char(k) {
            assert(s@.subrange(pos as int, pos + m)[k as int] == s@[pos + k]);
            return None;
        }
        k += 1;
    }
    assert(s@.subrange(pos as int, pos + m) =~= t@);
    Some(pos + m)
}

/// Whether `a` and `b` hold the same characters.
pub fn same_text(a: &str, b: &str) -> (r: bool)
    ensures
        r == (a@ == b@),
{
    if a.unicode_len() != b.unicode_len() {
        return false;
    }
    let r = tag_at(a, 0, b).is_some();
    assert(a@.subrange(0, b@.len() as int) =~= a@);
    r
}

} // verus!
