//! The Neow-options reader.
//!
//! After the marker `Neow Options:`, everything up to a fixed sentinel line
//! is captured; the sentinel and trailing whitespace are discarded.  The
//! captured text is split on `]` with no bracket awareness — deliberately a
//! simpler algorithm than the balanced reader — and each piece is trimmed,
//! stripped of leading `[`, trimmed again, with empty pieces dropped.  The
//! sentinel option itself is not part of the returned list.

use vstd::prelude::*;
use vstd::string::*;
use crate::Error;
use crate::structural_named;
use crate::chars::{run_len, skip_ws, ws_len};
use crate::find::{contains_at, find_char, find_str, first_at, lemma_first_at, lemma_first_char, match_at, first_char};
use crate::list::{split_char, trimmed, trim_exec, lemma_split_char_at, lemma_split_char_none};

verus! {

/// The sentinel: the final canonical Neow option line.
pub open spec fn neow_sentinel() -> Seq<char> {
    "[ Lose your starting Relic Obtain a random boss Relic ]"@
}

pub open spec fn open_bracket_pred() -> spec_fn(char) -> bool {
    |c: char| c == '['
}

/// `s` without its leading `[` characters.
pub open spec fn strip_open(s: Seq<char>) -> Seq<char>
    decreases s.len(),
{
    if s.len() > 0 && s[0] == '[' {
        strip_open(s.drop_first())
    } else {
        s
    }
}

pub proof fn lemma_strip_open_skip(s: Seq<char>)
    ensures
        strip_open(s) == s.skip(run_len(s, open_bracket_pred())),
    decreases s.len(),
{
    crate::chars::lemma_run_len(s, open_bracket_pred());
    if s.len() > 0 && s[0] == '[' {
        let t = s.drop_first();
        lemma_strip_open_skip(t);
        crate::chars::lemma_run_len(t, open_bracket_pred());
        assert(t.skip(run_len(t, open_bracket_pred())) =~= s.skip(
            1 + run_len(t, open_bracket_pred()),
        ));
    } else {
        assert(s.skip(0) =~= s);
    }
}

/// Cleaning of one raw piece: trim, strip leading `[`, trim again.
pub open spec fn neow_clean(p: Seq<char>) -> Seq<char> {
    trimmed(strip_open(trimmed(p)))
}

/// Clean every piece.
pub open spec fn clean_all(ps: Seq<Seq<char>>) -> Seq<Seq<char>> {
    ps.map_values(|p: Seq<char>| neow_clean(p))
}

pub proof fn lemma_clean_all_add(a: Seq<Seq<char>>, b: Seq<Seq<char>>)
    ensures
        clean_all(a + b) == clean_all(a) + clean_all(b),
{
    assert(clean_all(a + b) =~= clean_all(a) + clean_all(b));
}

/// Drop the empty pieces, keeping order.
pub open spec fn keep_nonempty(ps: Seq<Seq<char>>) -> Seq<Seq<char>>
    decreases ps.len(),
{
    if ps.len() == 0 {
        Seq::empty()
    } else if ps[0].len() != 0 {
        seq![ps[0]] + keep_nonempty(ps.drop_first())
    } else {
        keep_nonempty(ps.drop_first())
    }
}

pub proof fn lemma_keep_nonempty_add(a: Seq<Seq<char>>, b: Seq<Seq<char>>)
    ensures
        keep_nonempty(a + b) == keep_nonempty(a) + keep_nonempty(b),
    decreases a.len(),
{
    if a.len() == 0 {
        assert(a + b =~= b);
        assert(keep_nonempty(a) =~= Seq::<Seq<char>>::empty());
    } else {
        assert((a + b).drop_first() =~= a.drop_first() + b);
        lemma_keep_nonempty_add(a.drop_first(), b);
        assert((a + b)[0] == a[0]);
        if a[0].len() != 0 {
            assert(seq![a[0]] + (keep_nonempty(a.drop_first()) + keep_nonempty(b)) =~= (seq![a[0]]
                + keep_nonempty(a.drop_first())) + keep_nonempty(b));
        }
    }
}

/// The decoded option descriptions of a captured Neow section.
pub open spec fn neow_pieces(captured: Seq<char>) -> Seq<Seq<char>> {
    keep_nonempty(clean_all(split_char(captured, ']')))
}

/// The whole Neow section read.
pub open spec fn spec_neow(s: Seq<char>) -> Option<(Seq<char>, Seq<Seq<char>>)> {
    if contains_at(s, 0, "Neow Options:"@) {
        let a = s.skip("Neow Options:"@.len() as int);
        let b = a.skip(ws_len(a));
        match first_at(b, neow_sentinel()) {
            Some(i) => {
                let after = b.skip(i + neow_sentinel().len());
                Some((after.skip(ws_len(after)), neow_pieces(b.take(i))))
            },
            None => None,
        }
    } else {
        None
    }
}

/// Clean one raw piece.
fn clean_piece(p: &str) -> (t: String)
    ensures
        t@ == neow_clean(p@),
{
    let t1 = trim_exec(p);
    let t1s = t1.as_str();
    let n1 = t1s.unicode_len();
    let mut o: usize = 0;
    while o < n1 && t1s.get_char(o) == '['
        invariant
            0 <= o <= n1,
            n1 == t1s@.len(),
            forall|j: int| 0 <= j < o ==> t1s@[j] == '[',
        decreases n1 - o,
    {
        o = o + 1;
    }
    proof {
        crate::chars::lemma_run_len_is(t1s@, open_bracket_pred(), o as int);
        lemma_strip_open_skip(t1s@);
    }
    let t2 = t1s.substring_char(o, n1);
    proof {
        assert(t2@ =~= t1s@.skip(o as int));
    }
    trim_exec(t2)
}

/// Read the Neow options section.
pub fn parse_neow_options<'a>(input: &'a str) -> (r: Result<(&'a str, Vec<String>), Error>)
    ensures
        match r {
            Ok((rest, options)) => spec_neow(input@) == Some((rest@, options.deep_view())),
            Err(e) => spec_neow(input@) is None && structural_named(e, "Neow Options:"@),
        },
{
    let n = input.unicode_len();
    if !match_at(input, 0, "Neow Options:") {
        return Err(Error::StructuralError(String::from_str("Neow Options:")));
    }
    let k = "Neow Options:".unicode_len();
    let a = input.substring_char(k, n);
    let b = skip_ws(a);
    let sentinel = "[ Lose your starting Relic Obtain a random boss Relic ]";
    match find_str(b, sentinel) {
        None => Err(Error::StructuralError(String::from_str("Neow Options:"))),
        Some(i) => {
            proof {
                lemma_first_at(b@, sentinel@);
            }
            let bl = b.unicode_len();
            let sl = sentinel.unicode_len();
            let captured = b.substring_char(0, i);
            let after = b.substring_char(i + sl, bl);
            let rest = skip_ws(after);
            let options = split_neow_pieces(captured);
            proof {
                assert(captured@ =~= b@.take(i as int));
                assert(after@ =~= b@.skip(i as int + sentinel@.len()));
            }
            Ok((rest, options))
        },
    }
}

/// Split the captured text on `]`, clean each piece, drop the empty ones.
fn split_neow_pieces(captured: &str) -> (options: Vec<String>)
    ensures
        options.deep_view() == neow_pieces(captured@),
{
    let mut done: Vec<String> = Vec::new();
    let mut cur: &str = captured;
    proof {
        assert(done.deep_view() =~= Seq::<Seq<char>>::empty());
    }
    loop
        invariant_except_break
            neow_pieces(captured@) =~= done.deep_view() + neow_pieces(cur@),
        ensures
            neow_pieces(captured@) =~= done.deep_view(),
        decreases cur@.len(),
    {
        let ghost pre = done.deep_view();
        match find_char(cur, ']') {
            Some(i) => {
                proof {
                    lemma_first_char(cur@, ']');
                }
                let piece = cur.substring_char(0, i);
                let t = clean_piece(piece);
                let ghost tv = t@;
                let keep = t.as_str().unicode_len() > 0;
                if keep {
                    done.push(t);
                }
                let cn = cur.unicode_len();
                let next = cur.substring_char(i + 1, cn);
                proof {
                    lemma_split_char_at(cur@, ']', i as int);
                    assert(piece@ =~= cur@.take(i as int));
                    assert(next@ =~= cur@.skip(i as int + 1));
                    lemma_clean_all_add(seq![cur@.take(i as int)], split_char(next@, ']'));
                    assert(clean_all(seq![piece@]) =~= seq![neow_clean(piece@)]);
                    lemma_keep_nonempty_add(seq![tv], clean_all(split_char(next@, ']')));
                    assert(keep_nonempty(seq![tv].drop_first()) =~= Seq::<Seq<char>>::empty()) by {
                        assert(seq![tv].drop_first() =~= Seq::<Seq<char>>::empty());
                    }
                    if keep {
                        assert(keep_nonempty(seq![tv]) =~= seq![tv]);
                        assert(done.deep_view() =~= pre.push(tv));
                    } else {
                        assert(keep_nonempty(seq![tv]) =~= Seq::<Seq<char>>::empty());
                    }
                }
                cur = next;
            },
            None => {
                proof {
                    lemma_first_char(cur@, ']');
                }
                let t = clean_piece(cur);
                let ghost tv = t@;
                let keep = t.as_str().unicode_len() > 0;
                if keep {
                    done.push(t);
                }
                proof {
                    lemma_split_char_none(cur@, ']');
                    assert(clean_all(seq![cur@]) =~= seq![neow_clean(cur@)]);
                    assert(keep_nonempty(seq![tv].drop_first()) =~= Seq::<Seq<char>>::empty()) by {
                        assert(seq![tv].drop_first() =~= Seq::<Seq<char>>::empty());
                    }
                    if keep {
                        assert(keep_nonempty(seq![tv]) =~= seq![tv]);
                        assert(done.deep_view() =~= pre.push(tv));
                    } else {
                        assert(keep_nonempty(seq![tv]) =~= Seq::<Seq<char>>::empty());
                    }
                    assert(neow_pieces(captured@) =~= done.deep_view());
                }
                break;
            },
        }
    }
    done
}

} // verus!
