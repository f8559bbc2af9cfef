//! Characters of a string and substring containment.
use vstd::prelude::*;

verus! {

/// `q` occurs in `s` as a contiguous run of characters.
pub open spec fn occurs_in(q: Seq<char>, s: Seq<char>) -> bool {
    exists|i: int| 0 <= i <= s.len() - q.len() && #[trigger] s.subrange(i, i + q.len()) == q
}

/// The characters of `s`, one per element.
pub fn chars_of(s: &str) -> (r: Vec<char>)
    ensures
        r@ == s@,
{
    let mut r: Vec<char> = Vec::new();
    for c in it: s.chars()
        invariant
            it.seq() == s@,
            r@ == it.seq().take(it.index() as int),
    {
        r.push(c);
    }
    r
}

/// Whether `q` occurs in `s`, both given as characters.
fn occurs_in_chars(q: &Vec<char>, s: &Vec<char>) -> (r: bool)
    ensures
        r == occurs_in(q@, s@),
{
    let m = q.len();
    let n = s.len();
    if m > n {
        return false;
    }
    let mut i: usize = 0;
    while i <= n - m
        invariant
            m == q@.len(),
            n == s@.len(),
            m <= n,
            i <= n - m + 1,
            forall|k: int| 0 <= k < i ==> #[trigger] s@.subrange(k, k + m) != q@,
        decreases n - m + 1 - i,
    {
        let mut j: usize = 0;
        while j < m && s[i + j] == q[j]
            invariant
                m == q@.len(),
                n == s@.len(),
                i + m <= n,
                j <= m,
                forall|t: int| 0 <= t < j ==> s@[i + t] == q@[t],
            decreases m - j,
        {
            j += 1;
        }
        if j == m {
            assert(s@.subrange(i as int, i + m) =~= q@);
            return true;
        }
        assert(s@.subrange(i as int, i + m)[j as int] != q@[j as int]);
        i += 1;
    }
    false
}

/// Whether `query` occurs in `line`.
pub fn contains_query(line: &str, query: &str) -> (r: bool)
    ensures
        r == occurs_in(query@, line@),
{
    let l = chars_of(line);
    let q = chars_of(query);
    occurs_in_chars(&q, &l)
}

} // verus!
