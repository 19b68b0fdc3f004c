//! Character scanning over strings: first and last occurrence of a character.

use vstd::prelude::*;

verus! {

/// Index of the first occurrence of `c` in `s` at or after position `i`,
/// or `s.len()` when there is none.
pub open spec fn first_occ_from(s: Seq<char>, c: char, i: int) -> int
    decreases s.len() - i,
{
    if i >= s.len() {
        s.len() as int
    } else if 0 <= i && s[i] == c {
        i
    } else {
        first_occ_from(s, c, i + 1)
    }
}

/// `first_occ_from` lands between `i` and `s.len()`, on an occurrence of `c`
/// unless there is none, and nothing in between is an occurrence.
pub proof fn lemma_first_occ_from(s: Seq<char>, c: char, i: int)
    requires
        0 <= i <= s.len(),
    ensures
        i <= first_occ_from(s, c, i) <= s.len(),
        first_occ_from(s, c, i) < s.len() ==> s[first_occ_from(s, c, i)] == c,
        forall|j: int| i <= j < first_occ_from(s, c, i) ==> s[j] != c,
    decreases s.len() - i,
{
    if i < s.len() && s[i] != c {
        lemma_first_occ_from(s, c, i + 1);
    }
}

/// Index of the last occurrence of `c` in `s` strictly before position `i`,
/// or `-1` when there is none.
pub open spec fn last_occ_before(s: Seq<char>, c: char, i: int) -> int
    decreases i,
{
    if i <= 0 {
        -1
    } else if i <= s.len() && s[i - 1] == c {
        i - 1
    } else {
        last_occ_before(s, c, i - 1)
    }
}

/// Index of the last occurrence of `c` in `s`, or `-1` when there is none.
pub open spec fn last_occ(s: Seq<char>, c: char) -> int {
    last_occ_before(s, c, s.len() as int)
}

/// `last_occ_before` lands below `i`, on an occurrence of `c` unless it is
/// `-1`, and nothing above it (and below `i`) is an occurrence.
pub proof fn lemma_last_occ_before(s: Seq<char>, c: char, i: int)
    requires
        0 <= i <= s.len(),
    ensures
        -1 <= last_occ_before(s, c, i) < i,
        last_occ_before(s, c, i) >= 0 ==> s[last_occ_before(s, c, i)] == c,
        forall|j: int| last_occ_before(s, c, i) < j < i ==> s[j] != c,
    decreases i,
{
    if i > 0 && s[i - 1] != c {
        lemma_last_occ_before(s, c, i - 1);
    }
}

/// First index of `c` in `s` at or after `from`; `s@.len()` when absent.
pub fn find_from(s: &str, from: usize, c: char) -> (r: usize)
    requires
        from <= s@.len(),
    ensures
        r == first_occ_from(s@, c, from as int),
        from <= r <= s@.len(),
        r < s@.len() ==> s@[r as int] == c,
        forall|j: int| from <= j < r ==> s@[j] != c,
{
    let n: usize = s.unicode_len();
    let mut i: usize = from;
    while i < n
        invariant
            from <= i <= n,
            n == s@.len(),
            first_occ_from(s@, c, from as int) == first_occ_from(s@, c, i as int),
        decreases n - i,
    {
        if s.get_char(i) == c {
            proof {
                lemma_first_occ_from(s@, c, from as int);
            }
            return i;
        }
        i = i + 1;
    }
    proof {
        lemma_first_occ_from(s@, c, from as int);
    }
    n
}

/// Last index of `c` in `s`; `s@.len()` would never hold one, so `None`
/// stands for "absent" and the spec value `-1`.
pub fn find_last(s: &str, c: char) -> (r: Option<usize>)
    ensures
        match r {
            Some(k) => last_occ(s@, c) == k as int,
            None => last_occ(s@, c) == -1,
        },
{
    let n: usize = s.unicode_len();
    let mut i: usize = n;
    while i > 0
        invariant
            0 <= i <= n,
            n == s@.len(),
            last_occ_before(s@, c, n as int) == last_occ_before(s@, c, i as int),
        decreases i,
    {
        if s.get_char(i - 1) == c {
            return Some(i - 1);
        }
        i = i - 1;
    }
    None
}

} // verus!
