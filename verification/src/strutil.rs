//! Character-sequence ordering and substring search.
//!
//! Titles are ordered by Unicode code point, which for UTF-8 encoded text
//! coincides with the byte order the embedded store uses for its default
//! text collation.

use vstd::prelude::*;

verus! {

/// Lexicographic `<=` on character sequences, comparing code points.
pub open spec fn lex_le(a: Seq<char>, b: Seq<char>) -> bool
    decreases a.len(),
{
    if a.len() == 0 {
        true
    } else if b.len() == 0 {
        false
    } else if (a[0] as u32) < (b[0] as u32) {
        true
    } else if (a[0] as u32) > (b[0] as u32) {
        false
    } else {
        lex_le(a.drop_first(), b.drop_first())
    }
}

/// `needle` occurs contiguously somewhere in `hay`.
pub open spec fn is_substring(needle: Seq<char>, hay: Seq<char>) -> bool {
    exists|k: int|
        0 <= k && k + needle.len() <= hay.len() && #[trigger] hay.subrange(k, k + needle.len())
            == needle
}

/// Dropping a common prefix does not change the lexicographic comparison.
proof fn lemma_lex_skip(a: Seq<char>, b: Seq<char>, i: int)
    requires
        0 <= i <= a.len(),
        i <= b.len(),
        forall|j: int| 0 <= j < i ==> (a[j] as u32) == (b[j] as u32),
    ensures
        lex_le(a, b) == lex_le(a.skip(i), b.skip(i)),
    decreases i,
{
    if i > 0 {
        lemma_lex_skip(a, b, i - 1);
        let sa = a.skip(i - 1);
        let sb = b.skip(i - 1);
        assert(sa.len() > 0);
        assert(sa[0] == a[i - 1]);
        assert(sb[0] == b[i - 1]);
        assert(sa.drop_first() =~= a.skip(i));
        assert(sb.drop_first() =~= b.skip(i));
    } else {
        assert(a.skip(0) =~= a);
        assert(b.skip(0) =~= b);
    }
}

/// The order is total: of any two sequences, one is `lex_le` the other.
pub proof fn lemma_lex_total(a: Seq<char>, b: Seq<char>)
    ensures
        lex_le(a, b) || lex_le(b, a),
    decreases a.len(),
{
    if a.len() > 0 && b.len() > 0 && (a[0] as u32) == (b[0] as u32) {
        lemma_lex_total(a.drop_first(), b.drop_first());
    }
}

/// The order is transitive.
pub proof fn lemma_lex_trans(a: Seq<char>, b: Seq<char>, c: Seq<char>)
    requires
        lex_le(a, b),
        lex_le(b, c),
    ensures
        lex_le(a, c),
    decreases a.len(),
{
    if a.len() > 0 {
        assert(b.len() > 0);
        assert(c.len() > 0);
        if (a[0] as u32) == (b[0] as u32) && (b[0] as u32) == (c[0] as u32) {
            lemma_lex_trans(a.drop_first(), b.drop_first(), c.drop_first());
        }
    }
}

/// Compares two strings in the `lex_le` order.
pub fn str_le(a: &str, b: &str) -> (r: bool)
    ensures
        r == lex_le(a@, b@),
{
    let an = a.unicode_len();
    let bn = b.unicode_len();
    let mut i: usize = 0;
    loop
        invariant
            i <= an,
            i <= bn,
            an == a@.len(),
            bn == b@.len(),
            forall|j: int| 0 <= j < i ==> (#[trigger] (a@[j] as u32)) == (b@[j] as u32),
        decreases an - i,
    {
        proof {
            lemma_lex_skip(a@, b@, i as int);
        }
        if i >= an {
            return true;
        }
        if i >= bn {
            assert(a@.skip(i as int).len() > 0);
            return false;
        }
        let va = a.get_char(i) as u32;
        let vb = b.get_char(i) as u32;
        if va != vb {
            assert(a@.skip(i as int)[0] == a@[i as int]);
            assert(b@.skip(i as int)[0] == b@[i as int]);
            return va < vb;
        }
        i += 1;
    }
}

/// Compares two strings for equality of their character sequences.
pub fn str_eq(a: &str, b: &str) -> (r: bool)
    ensures
        r == (a@ == b@),
{
    let an = a.unicode_len();
    let bn = b.unicode_len();
    if an != bn {
        return false;
    }
    let mut i: usize = 0;
    while i < an
        invariant
            i <= an,
            an == a@.len(),
            an == bn,
            bn == b@.len(),
            forall|j: int| 0 <= j < i ==> a@[j] == b@[j],
        decreases an - i,
    {
        if a.get_char(i) != b.get_char(i) {
            return false;
        }
        i += 1;
    }
    assert(a@ =~= b@);
    true
}

/// `needle` matches `hay` exactly at position `k`.
fn match_at(hay: &str, needle: &str, k: usize, hn: usize, nn: usize) -> (r: bool)
    requires
        hn == hay@.len(),
        nn == needle@.len(),
        k + nn <= hn,
    ensures
        r == (hay@.subrange(k as int, k + nn) == needle@),
{
    let mut j: usize = 0;
    while j < nn
        invariant
            j <= nn,
            hn == hay@.len(),
            nn == needle@.len(),
            k + nn <= hn,
            forall|t: int| 0 <= t < j ==> hay@[k + t] == needle@[t],
        decreases nn - j,
    {
        if hay.get_char(k + j) != needle.get_char(j) {
            assert(hay@.subrange(k as int, k + nn)[j as int] == hay@[k + j]);
            return false;
        }
        j += 1;
    }
    assert(hay@.subrange(k as int, k + nn) =~= needle@);
    true
}

/// Substring search: does `needle` occur anywhere in `hay`?
pub fn str_contains(hay: &str, needle: &str) -> (r: bool)
    ensures
        r == is_substring(needle@, hay@),
{
    let hn = hay.unicode_len();
    let nn = needle.unicode_len();
    if nn > hn {
        return false;
    }
    if nn == 0 {
        assert(hay@.subrange(0, 0 + needle@.len() as int) =~= needle@);
        return true;
    }
    let mut k: usize = 0;
    while k <= hn - nn
        invariant
            0 < nn <= hn,
            hn == hay@.len(),
            nn == needle@.len(),
            k <= hn - nn + 1,
            forall|t: int| 0 <= t < k ==> #[trigger] hay@.subrange(t, t + nn as int) != needle@,
        decreases hn - nn - k + 1,
    {
        if match_at(hay, needle, k, hn, nn) {
            assert(is_substring(needle@, hay@)) by {
                assert(hay@.subrange(k as int, k + nn as int) == needle@);
            }
            return true;
        }
        k += 1;
    }
    false
}

} // verus!
