//! List decode: bracket read, then split on commas, then trim each piece.
//!
//! The split is a plain comma split with no bracket awareness; the bracket
//! reader has already isolated the inner text.  An empty inner text decodes
//! to one empty item, never to an empty list.

use vstd::prelude::*;
use vstd::string::*;
use crate::Error;
use crate::structural_named;
use crate::chars::{is_ws_char, lemma_run_len, ws_char, ws_count, ws_len, ws_pred};
use crate::find::{find_char, lemma_first_char};
use crate::bracket::{bb_read, parse_bracket_balanced};

verus! {

/// `s` without its leading whitespace.
pub open spec fn trim_start(s: Seq<char>) -> Seq<char>
    decreases s.len(),
{
    if s.len() > 0 && is_ws_char(s[0]) {
        trim_start(s.drop_first())
    } else {
        s
    }
}

/// `s` without its trailing whitespace.
pub open spec fn trim_end(s: Seq<char>) -> Seq<char>
    decreases s.len(),
{
    if s.len() > 0 && is_ws_char(s.last()) {
        trim_end(s.drop_last())
    } else {
        s
    }
}

/// `s` without leading and trailing whitespace.
pub open spec fn trimmed(s: Seq<char>) -> Seq<char> {
    trim_end(trim_start(s))
}

/// Length of the run of trailing whitespace of `s`.
pub open spec fn end_ws_len(s: Seq<char>) -> int
    decreases s.len(),
{
    if s.len() > 0 && is_ws_char(s.last()) {
        1 + end_ws_len(s.drop_last())
    } else {
        0
    }
}

pub proof fn lemma_trim_start_skip(s: Seq<char>)
    ensures
        trim_start(s) == s.skip(ws_len(s)),
    decreases s.len(),
{
    lemma_run_len(s, ws_pred());
    if s.len() > 0 && is_ws_char(s[0]) {
        let t = s.drop_first();
        lemma_trim_start_skip(t);
        assert(ws_len(s) == 1 + ws_len(t));
        lemma_run_len(t, ws_pred());
        assert(t.skip(ws_len(t)) =~= s.skip(1 + ws_len(t)));
    } else {
        assert(ws_len(s) == 0);
        assert(s.skip(0) =~= s);
    }
}

pub proof fn lemma_end_ws_len(s: Seq<char>)
    ensures
        0 <= end_ws_len(s) <= s.len(),
        forall|j: int| s.len() - end_ws_len(s) <= j < s.len() ==> is_ws_char(s[j]),
        end_ws_len(s) < s.len() ==> !is_ws_char(s[s.len() - 1 - end_ws_len(s)]),
    decreases s.len(),
{
    if s.len() > 0 && is_ws_char(s.last()) {
        let t = s.drop_last();
        lemma_end_ws_len(t);
        assert forall|j: int| s.len() - end_ws_len(s) <= j < s.len() implies is_ws_char(s[j]) by {
            if j < s.len() - 1 {
                assert(s[j] == t[j]);
            }
        }
        if end_ws_len(s) < s.len() {
            assert(s[s.len() - 1 - end_ws_len(s)] == t[t.len() - 1 - end_ws_len(t)]);
        }
    }
}

pub proof fn lemma_end_ws_len_is(s: Seq<char>, e: int)
    requires
        0 <= e <= s.len(),
        forall|j: int| s.len() - e <= j < s.len() ==> is_ws_char(s[j]),
        e < s.len() ==> !is_ws_char(s[s.len() - 1 - e]),
    ensures
        end_ws_len(s) == e,
    decreases s.len(),
{
    if s.len() > 0 && is_ws_char(s.last()) {
        let t = s.drop_last();
        assert(e != 0);
        assert forall|j: int| t.len() - (e - 1) <= j < t.len() implies is_ws_char(t[j]) by {
            assert(t[j] == s[j]);
        }
        if e - 1 < t.len() {
            assert(t[t.len() - 1 - (e - 1)] == s[s.len() - 1 - e]);
        }
        lemma_end_ws_len_is(t, e - 1);
    } else {
        if s.len() > 0 && e > 0 {
            assert(is_ws_char(s[s.len() - 1]));
        }
    }
}

pub proof fn lemma_trim_end_take(s: Seq<char>)
    ensures
        trim_end(s) == s.take(s.len() - end_ws_len(s)),
    decreases s.len(),
{
    lemma_end_ws_len(s);
    if s.len() > 0 && is_ws_char(s.last()) {
        let t = s.drop_last();
        lemma_trim_end_take(t);
        lemma_end_ws_len(t);
        assert(t.take(t.len() - end_ws_len(t)) =~= s.take(s.len() - end_ws_len(s)));
    } else {
        assert(s.take(s.len() - 0) =~= s);
    }
}

/// Trim both ends of `s`.
pub fn trim_exec(s: &str) -> (t: String)
    ensures
        t@ == trimmed(s@),
{
    let n = s.unicode_len();
    let a = ws_count(s);
    proof {
        lemma_trim_start_skip(s@);
        lemma_run_len(s@, ws_pred());
    }
    if a == n {
        let empty = String::new();
        proof {
            assert(s@.skip(n as int) =~= Seq::<char>::empty());
            assert(empty@ =~= Seq::<char>::empty());
        }
        return empty;
    }
    proof {
        assert(!is_ws_char(s@[a as int]));
    }
    let ghost u = s@.skip(a as int);
    let mut e: usize = 0;
    while ws_char(s.get_char(n - 1 - e))
        invariant
            a < n,
            0 <= e <= n - 1 - a,
            n == s@.len(),
            a as int == ws_len(s@),
            !is_ws_char(s@[a as int]),
            forall|j: int| n - e <= j < n ==> is_ws_char(s@[j]),
        decreases n - e,
    {
        e = e + 1;
    }
    let piece = s.substring_char(a, n - e);
    proof {
        assert(u.len() == n - a);
        assert forall|j: int| u.len() - e <= j < u.len() implies is_ws_char(u[j]) by {
            assert(u[j] == s@[j + a]);
        }
        assert(u[u.len() - 1 - e as int] == s@[n - 1 - e as int]);
        lemma_end_ws_len_is(u, e as int);
        lemma_trim_end_take(u);
        assert(u.take(u.len() - e as int) =~= s@.subrange(a as int, n - e as int));
        assert(piece@ == trimmed(s@));
    }
    String::from_str(piece)
}

/// Pieces of `s` split at every occurrence of `c`; one more piece than there
/// are occurrences, so the result is never empty.
pub open spec fn split_char(s: Seq<char>, c: char) -> Seq<Seq<char>>
    decreases s.len(),
{
    if s.len() == 0 {
        seq![Seq::<char>::empty()]
    } else if s[0] == c {
        seq![Seq::<char>::empty()] + split_char(s.drop_first(), c)
    } else {
        let r = split_char(s.drop_first(), c);
        seq![seq![s[0]] + r[0]] + r.drop_first()
    }
}

pub proof fn lemma_split_char_len(s: Seq<char>, c: char)
    ensures
        split_char(s, c).len() >= 1,
    decreases s.len(),
{
    if s.len() > 0 {
        lemma_split_char_len(s.drop_first(), c);
    }
}

/// With `c` absent, the only piece is the whole text.
pub proof fn lemma_split_char_none(s: Seq<char>, c: char)
    requires
        forall|j: int| 0 <= j < s.len() ==> s[j] != c,
    ensures
        split_char(s, c) == seq![s],
    decreases s.len(),
{
    if s.len() == 0 {
        assert(s =~= Seq::<char>::empty());
        assert(split_char(s, c) =~= seq![s]);
    } else {
        let t = s.drop_first();
        assert forall|j: int| 0 <= j < t.len() implies t[j] != c by {
            assert(t[j] == s[j + 1]);
        }
        lemma_split_char_none(t, c);
        let r = split_char(t, c);
        assert(r[0] == t);
        assert(seq![s[0]] + t =~= s);
        assert(r.drop_first() =~= Seq::<Seq<char>>::empty());
        assert(split_char(s, c) =~= seq![s]);
    }
}

/// Splitting at the first occurrence: head piece, then the split of the tail.
pub proof fn lemma_split_char_at(s: Seq<char>, c: char, i: int)
    requires
        0 <= i < s.len(),
        s[i] == c,
        forall|j: int| 0 <= j < i ==> s[j] != c,
    ensures
        split_char(s, c) == seq![s.take(i)] + split_char(s.skip(i + 1), c),
    decreases s.len(),
{
    if i == 0 {
        assert(s.take(0) =~= Seq::<char>::empty());
        assert(s.drop_first() =~= s.skip(1));
        assert(split_char(s, c) =~= seq![s.take(0)] + split_char(s.skip(1), c));
    } else {
        let t = s.drop_first();
        assert forall|j: int| 0 <= j < i - 1 implies t[j] != c by {
            assert(t[j] == s[j + 1]);
        }
        assert(t[i - 1] == s[i]);
        lemma_split_char_at(t, c, i - 1);
        let r = split_char(t, c);
        assert(r == seq![t.take(i - 1)] + split_char(t.skip(i), c));
        assert(r[0] == t.take(i - 1));
        assert(seq![s[0]] + t.take(i - 1) =~= s.take(i));
        assert(r.drop_first() =~= split_char(t.skip(i), c));
        assert(t.skip(i) =~= s.skip(i + 1));
        assert(split_char(s, c) =~= seq![s.take(i)] + split_char(s.skip(i + 1), c));
    }
}

/// Trim every piece.
pub open spec fn trim_all(ps: Seq<Seq<char>>) -> Seq<Seq<char>> {
    ps.map_values(|p: Seq<char>| trimmed(p))
}

pub proof fn lemma_trim_all_add(a: Seq<Seq<char>>, b: Seq<Seq<char>>)
    ensures
        trim_all(a + b) == trim_all(a) + trim_all(b),
{
    assert(trim_all(a + b) =~= trim_all(a) + trim_all(b));
}

/// The decoded items of a list's inner text: comma pieces, each trimmed.
pub open spec fn decode_items(inner: Seq<char>) -> Seq<Seq<char>> {
    trim_all(split_char(inner, ','))
}

/// Split `inner` on commas and trim each piece.
pub fn split_and_trim(inner: &str) -> (items: Vec<String>)
    ensures
        items.deep_view() == decode_items(inner@),
{
    let mut done: Vec<String> = Vec::new();
    let mut cur: &str = inner;
    proof {
        assert(done.deep_view() =~= Seq::<Seq<char>>::empty());
    }
    loop
        invariant_except_break
            decode_items(inner@) =~= done.deep_view() + trim_all(split_char(cur@, ',')),
        ensures
            decode_items(inner@) =~= done.deep_view(),
        decreases cur@.len(),
    {
        let ghost pre = done.deep_view();
        match find_char(cur, ',') {
            Some(i) => {
                proof {
                    lemma_first_char(cur@, ',');
                }
                let piece = cur.substring_char(0, i);
                let t = trim_exec(piece);
                done.push(t);
                let cn = cur.unicode_len();
                let next = cur.substring_char(i + 1, cn);
                proof {
                    lemma_split_char_at(cur@, ',', i as int);
                    assert(piece@ =~= cur@.take(i as int));
                    assert(next@ =~= cur@.skip(i as int + 1));
                    lemma_trim_all_add(seq![cur@.take(i as int)], split_char(next@, ','));
                    assert(trim_all(seq![cur@.take(i as int)]) =~= seq![trimmed(piece@)]);
                    assert(done.deep_view() =~= pre.push(t@));
                    assert(done.deep_view() + trim_all(split_char(next@, ',')) =~= pre + seq![
                        trimmed(piece@),
                    ] + trim_all(split_char(next@, ',')));
                }
                cur = next;
            },
            None => {
                proof {
                    lemma_first_char(cur@, ',');
                }
                let t = trim_exec(cur);
                done.push(t);
                proof {
                    lemma_split_char_none(cur@, ',');
                    assert(trim_all(seq![cur@]) =~= seq![trimmed(cur@)]);
                    assert(done.deep_view() =~= pre.push(t@));
                    assert(decode_items(inner@) =~= done.deep_view());
                }
                break;
            },
        }
    }
    done
}

/// The list decode applied at the front of `s`: the bracket-balanced read,
/// then the comma split with trimming.
pub open spec fn spec_list(s: Seq<char>) -> Option<(Seq<char>, Seq<Seq<char>>)> {
    match bb_read(s) {
        Some((rest, inner)) => Some((rest, decode_items(inner))),
        None => None,
    }
}

/// Read one bracketed list and decode its items.
pub fn parse_string_vec<'a>(input: &'a str) -> (r: Result<(&'a str, Vec<String>), Error>)
    ensures
        match r {
            Ok((rest, items)) => spec_list(input@) == Some((rest@, items.deep_view())),
            Err(e) => spec_list(input@) is None && structural_named(e, "bracket list"@),
        },
{
    match parse_bracket_balanced(input) {
        Ok((rest, inner)) => {
            let items = split_and_trim(inner);
            Ok((rest, items))
        },
        Err(e) => Err(e),
    }
}

} // verus!
