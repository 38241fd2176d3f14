//! Character-level scanning helpers for command lines and config text.

use vstd::prelude::*;

verus! {

/// Index of the first occurrence of `c` at or after `from`, or the string's
/// length when there is none.
pub open spec fn first_at(s: Seq<char>, c: char, from: int) -> int
    decreases s.len() - from,
{
    if from >= s.len() {
        s.len() as int
    } else if s[from] == c {
        from
    } else {
        first_at(s, c, from + 1)
    }
}

proof fn lemma_first_at_found(s: Seq<char>, c: char, from: int, i: int)
    requires
        0 <= from <= i <= s.len(),
        forall|j: int| from <= j < i ==> s[j] != c,
        i == s.len() || s[i] == c,
    ensures
        first_at(s, c, from) == i,
    decreases i - from,
{
    if from < i {
        lemma_first_at_found(s, c, from + 1, i);
    }
}

/// Where the first occurrence lands: inside the string on `c`, or at its
/// end, with nothing equal to `c` before it.
pub proof fn lemma_first_at_facts(s: Seq<char>, c: char, from: int)
    requires
        0 <= from,
    ensures
        from <= first_at(s, c, from) <= s.len() || s.len() < from,
        first_at(s, c, from) < s.len() && from <= s.len() ==> s[first_at(s, c, from)] == c,
        forall|j: int| from <= j < first_at(s, c, from) ==> s[j] != c,
    decreases s.len() - from,
{
    if from < s.len() && s[from] != c {
        lemma_first_at_facts(s, c, from + 1);
    }
}

/// Finds the first occurrence of `c` at or after `from`, or the length.
pub fn find_char(s: &str, c: char, from: usize) -> (r: usize)
    requires
        from <= s@.len(),
    ensures
        r == first_at(s@, c, from as int),
        from <= r <= s@.len(),
{
    let n = s.unicode_len();
    let mut i: usize = from;
    while i < n
        invariant
            from <= i <= n,
            n == s@.len(),
            forall|j: int| from <= j < i ==> s@[j] != c,
        decreases n - i,
    {
        if s.get_char(i) == c {
            proof {
                lemma_first_at_found(s@, c, from as int, i as int);
            }
            return i;
        }
        i = i + 1;
    }
    proof {
        lemma_first_at_found(s@, c, from as int, n as int);
    }
    n
}

/// `p` stands letter for letter at offset `i` of `s`.
pub open spec fn matches_at(s: Seq<char>, p: Seq<char>, i: int) -> bool {
    0 <= i && i + p.len() <= s.len() && s.subrange(i, i + p.len()) == p
}

/// `s` holds `p` somewhere.
pub open spec fn str_contains(s: Seq<char>, p: Seq<char>) -> bool {
    exists|i: int| matches_at(s, p, i)
}

/// Whether `pat` stands at offset `at` of `s`.
pub fn match_at(s: &str, at: usize, pat: &str) -> (r: bool)
    ensures
        r == matches_at(s@, pat@, at as int),
{
    let n = s.unicode_len();
    let m = pat.unicode_len();
    if at > n || m > n - at {
        return false;
    }
    let mut k: usize = 0;
    while k < m
        invariant
            k <= m,
            n == s@.len(),
            m == pat@.len(),
            at + m <= n,
            forall|j: int| 0 <= j < k ==> s@[at + j] == pat@[j],
        decreases m - k,
    {
        if s.get_char(at + k) != pat.get_char(k) {
            proof {
                assert(s@.subrange(at as int, at + m) != pat@) by {
                    assert(s@.subrange(at as int, at + m)[k as int] == s@[at + k]);
                }
            }
            return false;
        }
        k = k + 1;
    }
    proof {
        assert(s@.subrange(at as int, at + m) =~= pat@);
    }
    true
}

/// Whether `s` holds `pat` anywhere.
pub fn contains_str(s: &str, pat: &str) -> (r: bool)
    ensures
        r == str_contains(s@, pat@),
{
    let n = s.unicode_len();
    let m = pat.unicode_len();
    if m > n {
        return false;
    }
    if m == 0 {
        proof {
            assert(s@.subrange(0, 0) =~= pat@);
            assert(matches_at(s@, pat@, 0));
        }
        return true;
    }
    let mut i: usize = 0;
    while i <= n - m
        invariant
            0 < m <= n,
            n == s@.len(),
            m == pat@.len(),
            i <= n - m + 1,
            forall|j: int| 0 <= j < i ==> !matches_at(s@, pat@, j),
        decreases n - i,
    {
        if match_at(s, i, pat) {
            return true;
        }
        i = i + 1;
    }
    false
}

/// The characters strictly between the first `sep` and the following `sep`
/// (or the end of the string).
pub open spec fn second_segment_spec(s: Seq<char>, sep: char) -> Seq<char> {
    let i = first_at(s, sep, 0);
    let j = first_at(s, sep, i + 1);
    s.subrange(i + 1, j)
}

/// Cuts out the part between the first separator and the next one.
pub fn second_segment(s: &str, sep: char) -> (r: String)
    requires
        first_at(s@, sep, 0) < s@.len(),
    ensures
        r@ == second_segment_spec(s@, sep),
{
    let n = s.unicode_len();
    let i = find_char(s, sep, 0);
    assert(i < n);
    let j = find_char(s, sep, i + 1);
    let sub = s.substring_char(i + 1, j);
    proof {
        lemma_first_at_facts(s@, sep, i as int + 1);
    }
    String::from_str(sub)
}

} // verus!
