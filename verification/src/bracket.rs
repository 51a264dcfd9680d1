//! The bracket-balanced list reader, the grammar's leaf primitive.
//!
//! Given text starting with `[`, the reader scans forward counting bracket
//! depth and stops at the first position where the depth returns to zero.
//! It yields the inner text (without the outer pair) and the remainder after
//! the close.  Interior bracket pairs never terminate the read early.

use vstd::prelude::*;
use vstd::string::*;
use crate::Error;
use crate::structural_named;

verus! {

/// +1 for an open bracket, -1 for a close, 0 otherwise.
pub open spec fn bracket_delta(c: char) -> int {
    if c == '[' {
        1
    } else if c == ']' {
        -1
    } else {
        0
    }
}

/// Open brackets minus close brackets over all of `s`.
pub open spec fn nesting(s: Seq<char>) -> int
    decreases s.len(),
{
    if s.len() == 0 {
        0
    } else {
        nesting(s.drop_last()) + bracket_delta(s.last())
    }
}

/// `s` is bracket-balanced: no prefix closes more than it opened, and the
/// whole opens exactly as much as it closes.
pub open spec fn balanced(s: Seq<char>) -> bool {
    nesting(s) == 0 && forall|i: int| 0 <= i <= s.len() ==> nesting(#[trigger] s.take(i)) >= 0
}

/// Index of the close bracket at which a running depth of `d` returns to
/// zero for the first time, if it ever does.
pub open spec fn close_from(s: Seq<char>, d: int) -> Option<int>
    decreases s.len(),
{
    if s.len() == 0 {
        None
    } else if s[0] == ']' && d == 1 {
        Some(0int)
    } else {
        match close_from(s.drop_first(), d + bracket_delta(s[0])) {
            Some(j) => Some(j + 1),
            None => None,
        }
    }
}

/// The whole read: on `[` + inner + `]` + rest it yields (rest, inner).
pub open spec fn bb_read(s: Seq<char>) -> Option<(Seq<char>, Seq<char>)> {
    if s.len() > 0 && s[0] == '[' {
        match close_from(s.skip(1), 1) {
            Some(j) => Some((s.skip(2 + j), s.subrange(1, 1 + j))),
            None => None,
        }
    } else {
        None
    }
}

pub proof fn lemma_nesting_bound(s: Seq<char>)
    ensures
        -s.len() <= nesting(s) <= s.len(),
    decreases s.len(),
{
    if s.len() > 0 {
        lemma_nesting_bound(s.drop_last());
    }
}

/// Extending a prefix by one character adds that character's delta.
pub proof fn lemma_nesting_take_step(s: Seq<char>, i: int)
    requires
        0 <= i < s.len(),
    ensures
        nesting(s.take(i + 1)) == nesting(s.take(i)) + bracket_delta(s[i]),
{
    assert(s.take(i + 1).drop_last() =~= s.take(i));
    assert(s.take(i + 1).last() == s[i]);
}

/// A found close really is the first depth-zero close, and conversely.
pub proof fn lemma_close_from(s: Seq<char>, d: int)
    requires
        d >= 1,
    ensures
        match close_from(s, d) {
            Some(j) => {
                &&& 0 <= j < s.len()
                &&& s[j] == ']'
                &&& d + nesting(s.take(j + 1)) == 0
                &&& forall|k: int| 0 <= k <= j ==> d + nesting(#[trigger] s.take(k)) >= 1
            },
            None => true,
        },
    decreases s.len(),
{
    if s.len() == 0 {
    } else if s[0] == ']' && d == 1 {
        lemma_nesting_take_step(s, 0);
        assert(s.take(0) =~= Seq::<char>::empty());
        assert(nesting(Seq::<char>::empty()) == 0);
        assert(nesting(s.take(1)) == -1);
        assert forall|k: int| 0 <= k <= 0 implies d + nesting(#[trigger] s.take(k)) >= 1 by {
            assert(s.take(0) =~= Seq::<char>::empty());
        }
    } else {
        let t = s.drop_first();
        let d2 = d + bracket_delta(s[0]);
        if d2 >= 1 {
            lemma_close_from(t, d2);
            match close_from(t, d2) {
                Some(j) => {
                    assert forall|k: int| 0 <= k <= j + 1 implies d + nesting(
                        #[trigger] s.take(k),
                    ) >= 1 by {
                        if k == 0 {
                            assert(s.take(0) =~= Seq::<char>::empty());
                        } else {
                            assert(t.take(k - 1) =~= s.take(k).drop_first());
                            lemma_nesting_prepend(s[0], t.take(k - 1));
                            assert(s.take(k) =~= seq![s[0]] + t.take(k - 1));
                        }
                    }
                    assert(t.take(j + 1) =~= s.take(j + 2).drop_first());
                    lemma_nesting_prepend(s[0], t.take(j + 1));
                    assert(s.take(j + 2) =~= seq![s[0]] + t.take(j + 1));
                    assert(s[j + 1] == t[j]);
                },
                None => {},
            }
        } else {
            // d == 1 and s[0] == ']' was handled; otherwise d2 >= 1.
            assert(d == 1 && s[0] == ']');
        }
    }
}

/// Prepending one character adds its delta to the nesting.
pub proof fn lemma_nesting_prepend(c: char, t: Seq<char>)
    ensures
        nesting(seq![c] + t) == bracket_delta(c) + nesting(t),
    decreases t.len(),
{
    if t.len() == 0 {
        assert(seq![c] + t =~= seq![c]);
        assert((seq![c]).drop_last() =~= Seq::<char>::empty());
        assert((seq![c]).last() == c);
        assert(nesting(Seq::<char>::empty()) == 0);
        assert(nesting((seq![c]).drop_last()) == 0);
        assert(nesting(seq![c]) == bracket_delta(c));
    } else {
        lemma_nesting_prepend(c, t.drop_last());
        assert((seq![c] + t).drop_last() =~= seq![c] + t.drop_last());
        assert((seq![c] + t).last() == t.last());
    }
}

/// A position with the first-depth-zero-close properties is the close that
/// `close_from` finds.
pub proof fn lemma_close_from_is(s: Seq<char>, d: int, j: int)
    requires
        d >= 1,
        0 <= j < s.len(),
        s[j] == ']',
        d + nesting(s.take(j + 1)) == 0,
        forall|k: int| 0 <= k <= j ==> d + nesting(#[trigger] s.take(k)) >= 1,
    ensures
        close_from(s, d) == Some(j),
    decreases s.len(),
{
    if j == 0 {
        lemma_nesting_take_step(s, 0);
        assert(s.take(0) =~= Seq::<char>::empty());
        assert(nesting(Seq::<char>::empty()) == 0);
        assert(nesting(s.take(1)) == bracket_delta(s[0]));
        assert(d == 1);
    } else {
        let t = s.drop_first();
        let d2 = d + bracket_delta(s[0]);
        lemma_nesting_take_step(s, 0);
        assert(s.take(0) =~= Seq::<char>::empty());
        assert(nesting(Seq::<char>::empty()) == 0);
        assert(nesting(s.take(1)) == bracket_delta(s[0]));
        assert(d2 >= 1);
        assert(!(s[0] == ']' && d == 1));
        assert forall|k: int| 0 <= k <= j - 1 implies d2 + nesting(#[trigger] t.take(k)) >= 1 by {
            assert(t.take(k) =~= s.take(k + 1).drop_first());
            assert(s.take(k + 1) =~= seq![s[0]] + t.take(k));
            lemma_nesting_prepend(s[0], t.take(k));
        }
        assert(t.take(j) =~= s.take(j + 1).drop_first());
        assert(s.take(j + 1) =~= seq![s[0]] + t.take(j));
        lemma_nesting_prepend(s[0], t.take(j));
        assert(t[j - 1] == s[j]);
        lemma_close_from_is(t, d2, j - 1);
    }
}

/// Soundness of the read: a successful read decomposes the input around a
/// balanced inner text.
pub proof fn lemma_bb_read_sound(s: Seq<char>, rest: Seq<char>, inner: Seq<char>)
    requires
        bb_read(s) == Some((rest, inner)),
    ensures
        s =~= seq!['['] + inner + seq![']'] + rest,
        balanced(inner),
{
    let t = s.skip(1);
    lemma_close_from(t, 1);
    match close_from(t, 1) {
        Some(j) => {
            assert(rest =~= s.skip(2 + j));
            assert(inner =~= s.subrange(1, 1 + j));
            assert(t[j] == s[1 + j]);
            assert(s =~= seq!['['] + inner + seq![']'] + rest);
            assert(inner =~= t.take(j));
            assert forall|i: int| 0 <= i <= inner.len() implies nesting(
                #[trigger] inner.take(i),
            ) >= 0 by {
                assert(inner.take(i) =~= t.take(i));
            }
            assert(t.take(j + 1).drop_last() =~= t.take(j));
            assert(t.take(j + 1).last() == t[j]);
            assert(nesting(t.take(j + 1)) == nesting(t.take(j)) - 1);
            assert(inner.take(inner.len() as int) =~= t.take(j));
            assert(nesting(inner) == 0) by {
                assert(inner =~= t.take(j));
            }
        },
        None => {},
    }
}

/// Completeness of the read: every decomposition around a balanced inner
/// text is found, exactly.
pub proof fn lemma_bb_read_complete(s: Seq<char>, body: Seq<char>, rest: Seq<char>)
    requires
        s =~= seq!['['] + body + seq![']'] + rest,
        balanced(body),
    ensures
        bb_read(s) == Some((rest, body)),
{
    let t = s.skip(1);
    let j = body.len() as int;
    assert(t =~= body + seq![']'] + rest);
    assert(s[0] == '[');
    assert(t[j] == ']');
    assert forall|k: int| 0 <= k <= j implies 1 + nesting(#[trigger] t.take(k)) >= 1 by {
        assert(t.take(k) =~= body.take(k));
    }
    assert(t.take(j + 1) =~= body + seq![']']);
    assert((body + seq![']']).drop_last() =~= body);
    assert((body + seq![']']).last() == ']');
    assert(nesting(t.take(j + 1)) == nesting(body) - 1);
    lemma_close_from_is(t, 1, j);
    assert(s.skip(2 + j) =~= rest);
    assert(s.subrange(1, 1 + j) =~= body);
}

/// A successful read consumes the outer pair, so the remainder is shorter.
pub proof fn lemma_bb_read_len(s: Seq<char>)
    ensures
        match bb_read(s) {
            Some((rest, inner)) => rest.len() + inner.len() + 2 == s.len() && rest.len() < s.len(),
            None => true,
        },
{
    if s.len() > 0 && s[0] == '[' {
        lemma_close_from(s.skip(1), 1);
    }
}

/// The bracket-balanced list reader.
///
/// Succeeds exactly when the input starts with `[` and some prefix closes
/// back to depth zero; then it returns the remainder after the matching
/// close and the inner text between the outer pair.
pub fn parse_bracket_balanced<'a>(input: &'a str) -> (r: Result<(&'a str, &'a str), Error>)
    ensures
        match r {
            Ok((rest, inner)) => bb_read(input@) == Some((rest@, inner@)),
            Err(e) => bb_read(input@) is None && structural_named(e, "bracket list"@),
        },
{
    let n = input.unicode_len();
    if n == 0 || input.get_char(0) != '[' {
        return Err(Error::StructuralError(String::from_str("bracket list")));
    }
    let ghost t = input@.skip(1);
    let mut depth: usize = 1;
    let mut i: usize = 1;
    proof {
        assert(t.take(0) =~= Seq::<char>::empty());
    }
    while i < n
        invariant
            1 <= i <= n,
            n == input@.len(),
            input@[0] == '[',
            t == input@.skip(1),
            depth as int == 1 + nesting(t.take(i - 1)),
            depth >= 1,
            depth <= i,
            forall|k: int| 0 <= k <= i - 1 ==> 1 + nesting(#[trigger] t.take(k)) >= 1,
        decreases n - i,
    {
        let c = input.get_char(i);
        proof {
            assert(t[i - 1] == input@[i as int]);
            lemma_nesting_take_step(t, i - 1);
        }
        if c == ']' {
            if depth == 1 {
                proof {
                    lemma_close_from_is(t, 1, i - 1);
                }
                let inner = input.substring_char(1, i);
                let rest = input.substring_char(i + 1, n);
                proof {
                    assert(inner@ =~= input@.subrange(1, 1 + (i - 1)));
                    assert(rest@ =~= input@.skip(2 + (i - 1)));
                }
                return Ok((rest, inner));
            }
            depth = depth - 1;
        } else if c == '[' {
            depth = depth + 1;
        }
        i = i + 1;
    }
    proof {
        lemma_close_from(t, 1);
        match close_from(t, 1) {
            Some(j) => {
                assert(1 + nesting(t.take(j + 1)) >= 1);
            },
            None => {},
        }
    }
    Err(Error::StructuralError(String::from_str("bracket list")))
}

} // verus!
