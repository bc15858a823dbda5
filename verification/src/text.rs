//! Substring search and replacement over the characters of a string.

use vstd::prelude::*;
use vstd::string::*;
use vstd::utf8::{decode_utf8, valid_utf8};

verus! {

/// `pat` stands in `s` at position `i`.
pub open spec fn matches_at(s: Seq<char>, pat: Seq<char>, i: int) -> bool {
    &&& 0 <= i
    &&& i + pat.len() <= s.len()
    &&& s.subrange(i, i + pat.len()) == pat
}

/// `pat` stands somewhere in `s`. An empty pattern stands nowhere.
pub open spec fn occurs(s: Seq<char>, pat: Seq<char>) -> bool {
    pat.len() > 0 && exists|i: int| matches_at(s, pat, i)
}

/// `s` with every occurrence of `pat` replaced by `to`. Occurrences are taken
/// from the left and do not overlap; what `to` brings in is not searched
/// again. An empty pattern replaces nothing.
pub open spec fn replace_all(s: Seq<char>, pat: Seq<char>, to: Seq<char>) -> Seq<char>
    decreases s.len(),
{
    if pat.len() == 0 || s.len() < pat.len() {
        s
    } else if matches_at(s, pat, 0) {
        to + replace_all(s.skip(pat.len() as int), pat, to)
    } else {
        s.take(1) + replace_all(s.skip(1), pat, to)
    }
}

/// The number of places at which `pat` stands in `s`. An empty pattern
/// stands nowhere.
pub open spec fn count(s: Seq<char>, pat: Seq<char>) -> nat
    decreases s.len(),
{
    if pat.len() == 0 || s.len() < pat.len() {
        0
    } else if matches_at(s, pat, 0) {
        1 + count(s.skip(1), pat)
    } else {
        count(s.skip(1), pat)
    }
}

/// The characters of `s`, one by one.
pub fn chars(s: &str) -> (v: Vec<char>)
    ensures
        v@ == s@,
{
    let mut v: Vec<char> = Vec::new();
    for c in it: s.chars()
        invariant
            it.seq() == s@,
            v@ == it.seq().take(it.index()),
    {
        v.push(c);
    }
    v
}

/// Whether `pat` stands in `s` at position `i`.
fn matches(s: &Vec<char>, pat: &Vec<char>, i: usize) -> (b: bool)
    requires
        i + pat.len() <= s.len(),
    ensures
        b == matches_at(s@, pat@, i as int),
{
    let m = pat.len();
    let mut k: usize = 0;
    while k < m
        invariant
            m == pat.len(),
            i + m <= s.len(),
            k <= m,
            forall|j: int| 0 <= j < k ==> s@[i + j] == pat@[j],
        decreases m - k,
    {
        if s[i + k] != pat[k] {
            return false;
        }
        k += 1;
    }
    assert(s@.subrange(i as int, i + m) =~= pat@);
    true
}

/// Whether `pat` stands somewhere in `s`.
pub fn contains(s: &str, pat: &str) -> (b: bool)
    ensures
        b == occurs(s@, pat@),
{
    let sv = chars(s);
    let pv = chars(pat);
    let n = sv.len();
    let m = pv.len();
    if m == 0 || m > n {
        return false;
    }
    let mut i: usize = 0;
    while i <= n - m
        invariant
            n == sv.len(),
            m == pv.len(),
            0 < m <= n,
            sv@ == s@,
            pv@ == pat@,
            forall|j: int| 0 <= j < i ==> !matches_at(s@, pat@, j),
        decreases n - i,
    {
        if matches(&sv, &pv, i) {
            return true;
        }
        i += 1;
    }
    false
}

/// `s` with every occurrence of `pat` replaced by `to`.
pub fn replace(s: &str, pat: &str, to: &str) -> (r: String)
    ensures
        r@ == replace_all(s@, pat@, to@),
{
    let sv = chars(s);
    let pv = chars(pat);
    let n = sv.len();
    let m = pv.len();
    let mut out = String::new();
    if m == 0 || m > n {
        out.append(s);
        return out;
    }
    let mut start: usize = 0;
    let mut i: usize = 0;
    assert(s@.skip(0) =~= s@);
    while i <= n - m
        invariant
            n == sv.len(),
            m == pv.len(),
            0 < m <= n,
            sv@ == s@,
            pv@ == pat@,
            start <= i <= n,
            out@ + s@.subrange(start as int, i as int) + replace_all(s@.skip(i as int), pat@, to@)
                == replace_all(s@, pat@, to@),
        decreases n - i,
    {
        let ghost rest = s@.skip(i as int);
        assert(matches_at(rest, pat@, 0) == matches_at(s@, pat@, i as int)) by {
            assert(rest.subrange(0, m as int) =~= s@.subrange(i as int, i + m));
        }
        if matches(&sv, &pv, i) {
            out.append(s.substring_char(start, i));
            out.append(to);
            assert(rest.skip(m as int) =~= s@.skip(i + m));
            i += m;
            start = i;
        } else {
            assert(rest.skip(1) =~= s@.skip(i + 1));
            assert(s@.subrange(start as int, i as int) + rest.take(1) =~= s@.subrange(
                start as int,
                i + 1,
            ));
            i += 1;
        }
    }
    out.append(s.substring_char(start, n));
    assert(s@.subrange(start as int, i as int) + s@.skip(i as int) =~= s@.subrange(
        start as int,
        n as int,
    ));
    out
}

/// Calls `String::from_utf8`: the text that `bytes` encode, where they are
/// valid UTF-8, and nothing where they are not.
#[verifier::external_body]
pub(crate) fn from_utf8(bytes: Vec<u8>) -> (r: Option<String>)
    ensures
        match r {
            Some(s) => valid_utf8(bytes@) && s@ == decode_utf8(bytes@),
            None => !valid_utf8(bytes@),
        },
{
    String::from_utf8(bytes).ok()
}

/// Where no occurrence of `pat` starts within `a`, replacing in `a + b`
/// leaves `a` as it is and replaces in `b`.
pub proof fn lemma_replace_after(a: Seq<char>, b: Seq<char>, pat: Seq<char>, to: Seq<char>)
    requires
        forall|i: int| 0 <= i < a.len() ==> !matches_at(a + b, pat, i),
    ensures
        replace_all(a + b, pat, to) == a + replace_all(b, pat, to),
    decreases a.len(),
{
    let s = a + b;
    if a.len() > 0 && 0 < pat.len() <= s.len() {
        let a1 = a.skip(1);
        assert(s.skip(1) =~= a1 + b);
        assert forall|i: int| 0 <= i < a1.len() implies !matches_at(a1 + b, pat, i) by {
            if matches_at(a1 + b, pat, i) {
                assert((a1 + b).subrange(i, i + pat.len()) =~= s.subrange(
                    i + 1,
                    i + 1 + pat.len(),
                ));
                assert(matches_at(s, pat, i + 1));
            }
        }
        lemma_replace_after(a1, b, pat, to);
    }
}

/// Replacing in `pat + b` puts `to` for the pattern at the front and
/// replaces in `b`.
pub proof fn lemma_replace_front(b: Seq<char>, pat: Seq<char>, to: Seq<char>)
    requires
        pat.len() > 0,
    ensures
        replace_all(pat + b, pat, to) == to + replace_all(b, pat, to),
{
    let s = pat + b;
    assert(s.subrange(0, pat.len() as int) =~= pat);
    assert(s.skip(pat.len() as int) =~= b);
}

/// A text that holds nowhere the character that `pat` starts with has no
/// occurrence of `pat` starting in it, whatever follows the text.
pub proof fn lemma_no_start(a: Seq<char>, b: Seq<char>, pat: Seq<char>)
    requires
        pat.len() > 0,
        forall|i: int| 0 <= i < a.len() ==> a[i] != pat[0],
    ensures
        forall|i: int| 0 <= i < a.len() ==> !matches_at(a + b, pat, i),
{
    assert forall|i: int| 0 <= i < a.len() implies !matches_at(a + b, pat, i) by {
        if matches_at(a + b, pat, i) {
            assert((a + b)[i] == a[i]);
        }
    }
}

/// Where no occurrence of `pat` starts within `a`, `pat` stands in `a + b`
/// as often as in `b`.
pub proof fn lemma_count_after(a: Seq<char>, b: Seq<char>, pat: Seq<char>)
    requires
        forall|i: int| 0 <= i < a.len() ==> !matches_at(a + b, pat, i),
    ensures
        count(a + b, pat) == count(b, pat),
    decreases a.len(),
{
    let s = a + b;
    if a.len() == 0 {
        assert(s =~= b);
    } else if 0 < pat.len() <= s.len() {
        let a1 = a.skip(1);
        assert(s.skip(1) =~= a1 + b);
        assert forall|i: int| 0 <= i < a1.len() implies !matches_at(a1 + b, pat, i) by {
            if matches_at(a1 + b, pat, i) {
                assert((a1 + b).subrange(i, i + pat.len()) =~= s.subrange(
                    i + 1,
                    i + 1 + pat.len(),
                ));
                assert(matches_at(s, pat, i + 1));
            }
        }
        lemma_count_after(a1, b, pat);
    }
}

/// Where `pat` stands at the start of `a + b` and no other occurrence of it
/// starts within `a`, it stands in `a + b` once more than in `b`.
pub proof fn lemma_count_front(a: Seq<char>, b: Seq<char>, pat: Seq<char>)
    requires
        pat.len() > 0,
        a.len() > 0,
        matches_at(a + b, pat, 0),
        forall|i: int| 0 < i < a.len() ==> !matches_at(a + b, pat, i),
    ensures
        count(a + b, pat) == 1 + count(b, pat),
{
    let s = a + b;
    let a1 = a.skip(1);
    assert(s.skip(1) =~= a1 + b);
    assert forall|i: int| 0 <= i < a1.len() implies !matches_at(a1 + b, pat, i) by {
        if matches_at(a1 + b, pat, i) {
            assert((a1 + b).subrange(i, i + pat.len()) =~= s.subrange(i + 1, i + 1 + pat.len()));
            assert(matches_at(s, pat, i + 1));
        }
    }
    lemma_count_after(a1, b, pat);
}

} // verus!
