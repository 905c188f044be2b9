//! Verified text primitives: substring search, prefix tests and stripping,
//! and trimming of ASCII whitespace. The reconciler and the outcome
//! classifier state their contracts over these.

use vstd::prelude::*;
use vstd::string::StrSliceExecFns;

verus! {

/// `pat` occurs in `text` starting at position `i`.
pub open spec fn matches_at(text: Seq<char>, pat: Seq<char>, i: int) -> bool {
    0 <= i && i + pat.len() <= text.len() && text.subrange(i, i + pat.len()) == pat
}

/// `pat` occurs somewhere in `text`.
pub open spec fn contains_pattern(text: Seq<char>, pat: Seq<char>) -> bool {
    exists|i: int| matches_at(text, pat, i)
}

/// Character-for-character equality of two string slices.
pub fn str_eq(a: &str, b: &str) -> (r: bool)
    ensures
        r == (a@ == b@),
{
    let n: usize = a.unicode_len();
    let m: usize = b.unicode_len();
    if n != m {
        return false;
    }
    let mut i: usize = 0;
    while i < n
        invariant
            n == a@.len(),
            n == b@.len(),
            i <= n,
            forall|j: int| 0 <= j < i ==> a@[j] == b@[j],
        decreases n - i,
    {
        if a.get_char(i) != b.get_char(i) {
            assert(a@[i as int] != b@[i as int]);
            return false;
        }
        i = i + 1;
    }
    proof {
        assert(a@ =~= b@);
    }
    true
}

/// Whether `prefix`'s characters open `s`.
pub fn str_has_prefix(s: &str, prefix: &str) -> (r: bool)
    ensures
        r == prefix@.is_prefix_of(s@),
{
    let n: usize = s.unicode_len();
    let m: usize = prefix.unicode_len();
    if m > n {
        return false;
    }
    let mut i: usize = 0;
    while i < m
        invariant
            n == s@.len(),
            m == prefix@.len(),
            m <= n,
            i <= m,
            forall|j: int| 0 <= j < i ==> s@[j] == prefix@[j],
        decreases m - i,
    {
        if s.get_char(i) != prefix.get_char(i) {
            assert(s@.subrange(0, m as int)[i as int] != prefix@[i as int]);
            return false;
        }
        i = i + 1;
    }
    proof {
        assert(prefix@ =~= s@.subrange(0, m as int));
    }
    true
}

/// The remote name with the configured team prefix removed, when the name
/// begins with that prefix; otherwise the name unchanged.
pub open spec fn strip_prefix_spec(name: Seq<char>, prefix: Seq<char>) -> Seq<char> {
    if prefix.is_prefix_of(name) {
        name.skip(prefix.len() as int)
    } else {
        name
    }
}

/// Strips a leading `prefix` from `name`.
pub fn strip_prefix(name: &str, prefix: &str) -> (r: String)
    ensures
        r@ == strip_prefix_spec(name@, prefix@),
{
    if str_has_prefix(name, prefix) {
        let n: usize = name.unicode_len();
        let m: usize = prefix.unicode_len();
        let rest = name.substring_char(m, n);
        proof {
            assert(name@.subrange(m as int, n as int) =~= name@.skip(m as int));
        }
        rest.to_owned()
    } else {
        name.to_owned()
    }
}

/// Naive substring search for `pat` in `text`.
pub fn str_contains(text: &str, pat: &str) -> (r: bool)
    ensures
        r == contains_pattern(text@, pat@),
{
    let n: usize = text.unicode_len();
    let m: usize = pat.unicode_len();
    if m > n {
        proof {
            assert forall|k: int| !matches_at(text@, pat@, k) by {}
        }
        return false;
    }
    let mut i: usize = 0;
    while i <= n - m
        invariant
            n == text@.len(),
            m == pat@.len(),
            m <= n,
            i <= n - m + 1,
            forall|k: int| 0 <= k < i ==> !matches_at(text@, pat@, k),
        decreases n - m + 1 - i,
    {
        let mut j: usize = 0;
        let mut hit: bool = true;
        while j < m
            invariant
                n == text@.len(),
                m == pat@.len(),
                i + m <= n,
                j <= m,
                hit <==> (forall|l: int| 0 <= l < j ==> text@[i + l] == pat@[l]),
            decreases m - j,
        {
            let c = text.get_char(i + j);
            let d = pat.get_char(j);
            if c != d {
                hit = false;
            }
            j = j + 1;
        }
        if hit {
            proof {
                assert(text@.subrange(i as int, i + m) =~= pat@);
                assert(matches_at(text@, pat@, i as int));
            }
            return true;
        }
        proof {
            let l: int = choose|l: int| 0 <= l < m && text@[i + l] != pat@[l];
            assert(text@.subrange(i as int, i + m)[l] != pat@[l]);
        }
        i = i + 1;
    }
    proof {
        assert forall|k: int| !matches_at(text@, pat@, k) by {
            if 0 <= k < i {
            } else if k > n - m {
                assert(k + pat@.len() > text@.len());
            }
        }
    }
    false
}

/// ASCII whitespace, as git output is trimmed of it at both ends.
pub open spec fn is_ascii_blank(c: char) -> bool {
    c == ' ' || c == '\t' || c == '\n' || c == '\r' || c == '\x0c'
}

/// `s` without its leading ASCII whitespace.
pub open spec fn trim_start_spec(s: Seq<char>) -> Seq<char>
    decreases s.len(),
{
    if s.len() > 0 && is_ascii_blank(s[0]) {
        trim_start_spec(s.drop_first())
    } else {
        s
    }
}

/// `s` without its trailing ASCII whitespace.
pub open spec fn trim_end_spec(s: Seq<char>) -> Seq<char>
    decreases s.len(),
{
    if s.len() > 0 && is_ascii_blank(s.last()) {
        trim_end_spec(s.drop_last())
    } else {
        s
    }
}

/// `s` without ASCII whitespace at either end.
pub open spec fn trim_spec(s: Seq<char>) -> Seq<char> {
    trim_end_spec(trim_start_spec(s))
}

fn is_blank_char(c: char) -> (r: bool)
    ensures
        r == is_ascii_blank(c),
{
    c == ' ' || c == '\t' || c == '\n' || c == '\r' || c == '\x0c'
}

/// Trims ASCII whitespace from both ends of `s`.
pub fn trim_ascii_blank(s: &str) -> (r: &str)
    ensures
        r@ == trim_spec(s@),
{
    let n: usize = s.unicode_len();
    let mut lo: usize = 0;
    proof {
        assert(s@.skip(0) =~= s@);
    }
    while lo < n && is_blank_char(s.get_char(lo))
        invariant
            n == s@.len(),
            lo <= n,
            trim_start_spec(s@) == trim_start_spec(s@.skip(lo as int)),
        decreases n - lo,
    {
        proof {
            assert(s@.skip(lo as int)[0] == s@[lo as int]);
            assert(s@.skip(lo as int).drop_first() =~= s@.skip(lo as int + 1));
        }
        lo = lo + 1;
    }
    proof {
        if lo < n {
            assert(s@.skip(lo as int)[0] == s@[lo as int]);
            assert(trim_start_spec(s@.skip(lo as int)) == s@.skip(lo as int));
        } else {
            assert(s@.skip(lo as int) =~= Seq::<char>::empty());
        }
    }
    let mut hi: usize = n;
    while hi > lo && is_blank_char(s.get_char(hi - 1))
        invariant
            n == s@.len(),
            lo <= hi <= n,
            trim_start_spec(s@) == s@.subrange(lo as int, n as int),
            trim_end_spec(s@.subrange(lo as int, n as int)) == trim_end_spec(
                s@.subrange(lo as int, hi as int),
            ),
        decreases hi,
    {
        proof {
            let cur = s@.subrange(lo as int, hi as int);
            assert(cur.last() == s@[hi - 1]);
            assert(cur.drop_last() =~= s@.subrange(lo as int, hi - 1));
        }
        hi = hi - 1;
    }
    proof {
        let cur = s@.subrange(lo as int, hi as int);
        if hi > lo {
            assert(cur.last() == s@[hi - 1]);
            assert(trim_end_spec(cur) == cur);
        } else {
            assert(cur =~= Seq::<char>::empty());
        }
    }
    s.substring_char(lo, hi)
}

} // verus!
