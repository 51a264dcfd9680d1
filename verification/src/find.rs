//! Forward scanning for literal markers.
//!
//! `first_at` is the spec-level "index of the first occurrence of a marker";
//! `first_char` is the same for a single character.  The exec scanners return
//! exactly those indices, so every extractor's contract can speak of the
//! first occurrence directly.

use vstd::prelude::*;
use vstd::string::*;

verus! {

/// The marker `m` occurs in `s` at index `i`.
pub open spec fn contains_at(s: Seq<char>, i: int, m: Seq<char>) -> bool {
    0 <= i && i + m.len() <= s.len() && s.subrange(i, i + m.len() as int) == m
}

/// Index of the first occurrence of `m` in `s`, if any.
pub open spec fn first_at(s: Seq<char>, m: Seq<char>) -> Option<int>
    decreases s.len(),
{
    if contains_at(s, 0, m) {
        Some(0int)
    } else if s.len() == 0 {
        None
    } else {
        match first_at(s.drop_first(), m) {
            Some(i) => Some(i + 1),
            None => None,
        }
    }
}

/// Index of the first occurrence of the character `c` in `s`, if any.
pub open spec fn first_char(s: Seq<char>, c: char) -> Option<int>
    decreases s.len(),
{
    if s.len() == 0 {
        None
    } else if s[0] == c {
        Some(0int)
    } else {
        match first_char(s.drop_first(), c) {
            Some(i) => Some(i + 1),
            None => None,
        }
    }
}

/// Occurrences in the tail are occurrences in the whole, one further right.
pub proof fn lemma_contains_at_shift(s: Seq<char>, i: int, m: Seq<char>)
    requires
        s.len() > 0,
        0 <= i,
    ensures
        contains_at(s.drop_first(), i, m) <==> contains_at(s, i + 1, m),
{
    if i + 1 + m.len() <= s.len() {
        assert(s.drop_first().subrange(i, i + m.len() as int) =~= s.subrange(
            i + 1,
            i + 1 + m.len() as int,
        ));
    }
}

/// Occurrences at an offset are occurrences of the suffix at that offset.
pub proof fn lemma_contains_at_skip(s: Seq<char>, off: int, j: int, m: Seq<char>)
    requires
        0 <= off <= s.len(),
        0 <= j,
    ensures
        contains_at(s.skip(off), j, m) <==> contains_at(s, off + j, m),
{
    if off + j + m.len() <= s.len() {
        assert(s.skip(off).subrange(j, j + m.len() as int) =~= s.subrange(
            off + j,
            off + j + m.len() as int,
        ));
    }
}

/// `first_at` points at an occurrence, and at the first one.
pub proof fn lemma_first_at(s: Seq<char>, m: Seq<char>)
    ensures
        match first_at(s, m) {
            Some(i) => contains_at(s, i, m) && forall|j: int|
                0 <= j < i ==> !contains_at(s, j, m),
            None => forall|j: int| !contains_at(s, j, m),
        },
    decreases s.len(),
{
    if !contains_at(s, 0, m) && s.len() > 0 {
        let t = s.drop_first();
        lemma_first_at(t, m);
        match first_at(t, m) {
            Some(i) => {
                lemma_contains_at_shift(s, i, m);
                assert forall|j: int| 0 <= j < i + 1 implies !contains_at(s, j, m) by {
                    if j >= 1 {
                        lemma_contains_at_shift(s, j - 1, m);
                    }
                }
            },
            None => {
                assert forall|j: int| !contains_at(s, j, m) by {
                    if j >= 1 {
                        lemma_contains_at_shift(s, j - 1, m);
                    }
                }
            },
        }
    }
}

/// The first occurrence determines `first_at`.
pub proof fn lemma_first_at_is(s: Seq<char>, m: Seq<char>, i: int)
    requires
        contains_at(s, i, m),
        forall|j: int| 0 <= j < i ==> !contains_at(s, j, m),
    ensures
        first_at(s, m) == Some(i),
    decreases s.len(),
{
    if i == 0 {
    } else {
        assert(!contains_at(s, 0, m));
        assert(s.len() > 0);
        let t = s.drop_first();
        lemma_contains_at_shift(s, i - 1, m);
        assert forall|j: int| 0 <= j < i - 1 implies !contains_at(t, j, m) by {
            lemma_contains_at_shift(s, j, m);
        }
        lemma_first_at_is(t, m, i - 1);
    }
}

/// With no occurrence anywhere, `first_at` finds none.
pub proof fn lemma_first_at_none(s: Seq<char>, m: Seq<char>)
    requires
        forall|j: int| !contains_at(s, j, m),
    ensures
        first_at(s, m) is None,
{
    lemma_first_at(s, m);
    match first_at(s, m) {
        Some(i) => {
            assert(contains_at(s, i, m));
        },
        None => {},
    }
}

/// `first_char` points at the character, and at its first occurrence.
pub proof fn lemma_first_char(s: Seq<char>, c: char)
    ensures
        match first_char(s, c) {
            Some(i) => 0 <= i < s.len() && s[i] == c && forall|j: int| 0 <= j < i ==> s[j] != c,
            None => forall|j: int| 0 <= j < s.len() ==> s[j] != c,
        },
    decreases s.len(),
{
    if s.len() > 0 && s[0] != c {
        let t = s.drop_first();
        lemma_first_char(t, c);
        assert forall|j: int| 1 <= j < s.len() implies s[j] == t[j - 1] by {}
    }
}

/// The first occurrence of a character determines `first_char`.
pub proof fn lemma_first_char_is(s: Seq<char>, c: char, i: int)
    requires
        0 <= i < s.len(),
        s[i] == c,
        forall|j: int| 0 <= j < i ==> s[j] != c,
    ensures
        first_char(s, c) == Some(i),
    decreases s.len(),
{
    if i > 0 {
        let t = s.drop_first();
        assert forall|j: int| 0 <= j < i - 1 implies t[j] != c by {
            assert(t[j] == s[j + 1]);
        }
        assert(t[i - 1] == s[i]);
        lemma_first_char_is(t, c, i - 1);
    }
}

/// With the character absent, `first_char` finds none.
pub proof fn lemma_first_char_none(s: Seq<char>, c: char)
    requires
        forall|j: int| 0 <= j < s.len() ==> s[j] != c,
    ensures
        first_char(s, c) is None,
{
    lemma_first_char(s, c);
    match first_char(s, c) {
        Some(i) => {
            assert(s[i] == c);
        },
        None => {},
    }
}

/// Does `m` occur in `s` at index `i`?
pub fn match_at(s: &str, i: usize, m: &str) -> (b: bool)
    ensures
        b == contains_at(s@, i as int, m@),
{
    let n = s.unicode_len();
    let k = m.unicode_len();
    if i > n || k > n - i {
        return false;
    }
    let mut j: usize = 0;
    while j < k
        invariant
            0 <= j <= k,
            i + k <= n,
            n == s@.len(),
            k == m@.len(),
            forall|t: int| 0 <= t < j ==> s@[i + t] == m@[t],
        decreases k - j,
    {
        if s.get_char(i + j) != m.get_char(j) {
            proof {
                assert(s@.subrange(i as int, i as int + k as int)[j as int] != m@[j as int]);
            }
            return false;
        }
        j = j + 1;
    }
    proof {
        assert(s@.subrange(i as int, i as int + k as int) =~= m@);
    }
    true
}

/// Index of the first occurrence of the marker `m` in `s`.
pub fn find_str(s: &str, m: &str) -> (r: Option<usize>)
    ensures
        match r {
            Some(i) => first_at(s@, m@) == Some(i as int),
            None => first_at(s@, m@) is None,
        },
{
    let n = s.unicode_len();
    let k = m.unicode_len();
    if k == 0 {
        proof {
            assert(s@.subrange(0, 0) =~= m@);
        }
        return Some(0);
    }
    if k > n {
        proof {
            lemma_first_at_none(s@, m@);
        }
        return None;
    }
    let mut i: usize = 0;
    while i <= n - k
        invariant
            0 <= i <= n - k + 1,
            1 <= k <= n,
            n == s@.len(),
            k == m@.len(),
            forall|j: int| 0 <= j < i ==> !contains_at(s@, j, m@),
        decreases n - i,
    {
        if match_at(s, i, m) {
            proof {
                lemma_first_at_is(s@, m@, i as int);
            }
            return Some(i);
        }
        i = i + 1;
    }
    proof {
        assert forall|j: int| !contains_at(s@, j, m@) by {
            if j >= i {
                assert(j + m@.len() > s@.len());
            }
        }
        lemma_first_at_none(s@, m@);
    }
    None
}

/// Index of the first occurrence of the character `c` in `s`.
pub fn find_char(s: &str, c: char) -> (r: Option<usize>)
    ensures
        match r {
            Some(i) => first_char(s@, c) == Some(i as int),
            None => first_char(s@, c) is None,
        },
{
    let n = s.unicode_len();
    let mut i: usize = 0;
    while i < n
        invariant
            0 <= i <= n,
            n == s@.len(),
            forall|j: int| 0 <= j < i ==> s@[j] != c,
        decreases n - i,
    {
        if s.get_char(i) == c {
            proof {
                lemma_first_char_is(s@, c, i as int);
            }
            return Some(i);
        }
        i = i + 1;
    }
    proof {
        lemma_first_char_none(s@, c);
    }
    None
}

} // verus!
