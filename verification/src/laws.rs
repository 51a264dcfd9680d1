//! Laws of the decoder stated across its functions.
//!
//! The exactness of the bracket-balanced reader itself stands beside its
//! definition (`lemma_bb_read_sound`, `lemma_bb_read_complete`).  Here stand
//! the laws that relate several readers: what list decode does to items, the
//! empty-bracket quirk, re-parsing a record's leftover, and the failure a
//! transcript missing its `Events:` marker must produce.

use vstd::prelude::*;
use crate::RecordModel;
use crate::chars::{digit_pred, lemma_run_len, nonws_pred, ws_len, ws_pred};
use crate::find::{contains_at, first_at, first_char, lemma_contains_at_skip, lemma_first_at, lemma_first_at_is, lemma_first_char};
use crate::list::{decode_items, spec_list, split_char, trim_all, trimmed};
use crate::bracket::{bb_read, lemma_close_from};
use crate::extract::{spec_gobble_list, spec_labeled, spec_relics};
use crate::floors::spec_bounded_floors;
use crate::neow::{neow_sentinel, spec_neow};
use crate::record::{record_window, separator, spec_header, spec_record};
use crate::driver::spec_parse;

verus! {

/// Every decoded list item is a comma piece of the inner text with its
/// surrounding whitespace trimmed, in source order.
pub proof fn lemma_items_trimmed(inner: Seq<char>, i: int)
    requires
        0 <= i < decode_items(inner).len(),
    ensures
        decode_items(inner) == trim_all(split_char(inner, ',')),
        decode_items(inner)[i] == trimmed(split_char(inner, ',')[i]),
{
}

/// The documented quirk: an empty bracket pair decodes to a list holding
/// one empty string, not to an empty list.
pub proof fn lemma_empty_brackets_decode()
    ensures
        decode_items(Seq::<char>::empty()) == seq![Seq::<char>::empty()],
{
    assert(split_char(Seq::<char>::empty(), ',') == seq![Seq::<char>::empty()]);
    assert(trimmed(Seq::<char>::empty()) == Seq::<char>::empty());
    assert(trim_all(seq![Seq::<char>::empty()]) =~= seq![trimmed(Seq::<char>::empty())]);
}

/// Re-parsing a record's `leftover` in isolation yields no further record,
/// for any leftover in which no seed marker remains.
pub proof fn lemma_leftover_reparse(leftover: Seq<char>)
    requires
        first_at(leftover, "Seed:"@) is None,
    ensures
        spec_parse(leftover) == Ok::<_, Seq<char>>((leftover, Seq::<RecordModel>::empty())),
{
}

/// `x` is a suffix of `s`.
pub open spec fn suffix_of(x: Seq<char>, s: Seq<char>) -> bool {
    exists|k: int| 0 <= k <= s.len() && x == s.skip(k)
}

proof fn lemma_suffix_skip(s: Seq<char>, k: int)
    requires
        0 <= k <= s.len(),
    ensures
        suffix_of(s.skip(k), s),
{
    assert(0 <= k <= s.len() && s.skip(k) == s.skip(k));
}

proof fn lemma_suffix_trans(x: Seq<char>, y: Seq<char>, s: Seq<char>)
    requires
        suffix_of(x, y),
        suffix_of(y, s),
    ensures
        suffix_of(x, s),
{
    let a = choose|a: int| 0 <= a <= y.len() && x == y.skip(a);
    let b = choose|b: int| 0 <= b <= s.len() && y == s.skip(b);
    assert(x =~= s.skip(a + b));
    assert(0 <= a + b <= s.len() && x == s.skip(a + b));
}

proof fn lemma_suffix_ws(s: Seq<char>)
    ensures
        suffix_of(s.skip(ws_len(s)), s),
{
    lemma_run_len(s, ws_pred());
    lemma_suffix_skip(s, ws_len(s));
}

proof fn lemma_spec_list_suffix(s: Seq<char>)
    ensures
        match spec_list(s) {
            Some((rest, items)) => suffix_of(rest, s),
            None => true,
        },
{
    if s.len() > 0 && s[0] == '[' {
        lemma_close_from(s.skip(1), 1);
        match bb_read(s) {
            Some((rest, inner)) => {
                lemma_suffix_skip(s, s.len() - rest.len());
                assert(rest =~= s.skip(s.len() - rest.len()));
            },
            None => {},
        }
    }
}

proof fn lemma_spec_gobble_suffix(s: Seq<char>)
    ensures
        match spec_gobble_list(s) {
            Some((rest, items)) => suffix_of(rest, s),
            None => true,
        },
{
    match first_char(s, '[') {
        Some(i) => {
            lemma_first_char(s, '[');
            let at = s.skip(i);
            lemma_spec_list_suffix(at);
            match spec_list(at) {
                Some((rest, items)) => {
                    lemma_suffix_skip(s, i);
                    lemma_suffix_trans(rest, at, s);
                    lemma_suffix_ws(rest);
                    lemma_suffix_trans(rest.skip(ws_len(rest)), rest, s);
                },
                None => {},
            }
        },
        None => {},
    }
}

proof fn lemma_spec_labeled_suffix(s: Seq<char>, m: Seq<char>)
    ensures
        match spec_labeled(s, m) {
            Some((rest, items)) => suffix_of(rest, s),
            None => true,
        },
{
    match first_at(s, m) {
        Some(i) => {
            lemma_first_at(s, m);
            let a = s.skip(i + m.len());
            let b = a.skip(ws_len(a));
            lemma_suffix_skip(s, i + m.len() as int);
            lemma_suffix_ws(a);
            lemma_suffix_trans(b, a, s);
            lemma_spec_list_suffix(b);
            match spec_list(b) {
                Some((rest, items)) => {
                    lemma_suffix_trans(rest, b, s);
                    lemma_suffix_ws(rest);
                    lemma_suffix_trans(rest.skip(ws_len(rest)), rest, s);
                },
                None => {},
            }
        },
        None => {},
    }
}

proof fn lemma_spec_bounded_suffix(s: Seq<char>, lead: Seq<char>, trail: Seq<char>)
    ensures
        match spec_bounded_floors(s, lead, trail) {
            Some((rest, entries)) => suffix_of(rest, s),
            None => true,
        },
{
    if contains_at(s, 0, lead) {
        let a = s.skip(lead.len() as int);
        let b = a.skip(ws_len(a));
        lemma_suffix_skip(s, lead.len() as int);
        lemma_suffix_ws(a);
        lemma_suffix_trans(b, a, s);
        match first_at(b, trail) {
            Some(i) => {
                lemma_first_at(b, trail);
                lemma_suffix_skip(b, i);
                lemma_suffix_trans(b.skip(i), b, s);
            },
            None => {},
        }
    }
}

proof fn lemma_spec_neow_suffix(s: Seq<char>)
    ensures
        match spec_neow(s) {
            Some((rest, options)) => suffix_of(rest, s),
            None => true,
        },
{
    if contains_at(s, 0, "Neow Options:"@) {
        let a = s.skip("Neow Options:"@.len() as int);
        let b = a.skip(ws_len(a));
        lemma_suffix_skip(s, "Neow Options:"@.len() as int);
        lemma_suffix_ws(a);
        lemma_suffix_trans(b, a, s);
        match first_at(b, neow_sentinel()) {
            Some(i) => {
                lemma_first_at(b, neow_sentinel());
                let after = b.skip(i + neow_sentinel().len());
                lemma_suffix_skip(b, i + neow_sentinel().len() as int);
                lemma_suffix_trans(after, b, s);
                lemma_suffix_ws(after);
                lemma_suffix_trans(after.skip(ws_len(after)), after, s);
            },
            None => {},
        }
    }
}

proof fn lemma_spec_relics_suffix(s: Seq<char>)
    ensures
        match spec_relics(s) {
            Ok((rest, pools)) => suffix_of(rest, s),
            Err(sec) => true,
        },
{
    lemma_spec_labeled_suffix(s, "Raw common relic list:"@);
    match spec_labeled(s, "Raw common relic list:"@) {
        Some((r1, l1)) => {
            lemma_spec_labeled_suffix(r1, "Raw uncommon relic list:"@);
            match spec_labeled(r1, "Raw uncommon relic list:"@) {
                Some((r2, l2)) => {
                    lemma_spec_labeled_suffix(r2, "Raw rare relic list:"@);
                    match spec_labeled(r2, "Raw rare relic list:"@) {
                        Some((r3, l3)) => {
                            lemma_spec_labeled_suffix(r3, "Raw boss relic list:"@);
                            match spec_labeled(r3, "Raw boss relic list:"@) {
                                Some((r4, l4)) => {
                                    lemma_spec_labeled_suffix(r4, "Raw shop relic list:"@);
                                    match spec_labeled(r4, "Raw shop relic list:"@) {
                                        Some((r5, l5)) => {
                                            lemma_suffix_trans(r2, r1, s);
                                            lemma_suffix_trans(r3, r2, s);
                                            lemma_suffix_trans(r4, r3, s);
                                            lemma_suffix_trans(r5, r4, s);
                                        },
                                        None => {},
                                    }
                                },
                                None => {},
                            }
                        },
                        None => {},
                    }
                },
                None => {},
            }
        },
        None => {},
    }
}

proof fn lemma_spec_header_suffix(w: Seq<char>)
    ensures
        match spec_header(w) {
            Some((ss, sd, rem)) => suffix_of(rem, w),
            None => true,
        },
{
    if contains_at(w, 0, "Seed: "@) {
        let a = w.skip("Seed: "@.len() as int);
        lemma_suffix_skip(w, "Seed: "@.len() as int);
        lemma_run_len(a, nonws_pred());
        let b = a.skip(crate::chars::nonws_len(a));
        lemma_suffix_skip(a, crate::chars::nonws_len(a));
        lemma_suffix_trans(b, a, w);
        if contains_at(b, 0, " ("@) {
            let c0 = b.skip(" ("@.len() as int);
            lemma_suffix_skip(b, " ("@.len() as int);
            lemma_suffix_trans(c0, b, w);
            let d = crate::chars::digits_len(c0);
            lemma_run_len(c0, digit_pred());
            if contains_at(c0, d, ")"@) {
                let rem0 = c0.skip(d + ")"@.len());
                lemma_suffix_skip(c0, d + ")"@.len() as int);
                lemma_suffix_trans(rem0, c0, w);
                lemma_suffix_ws(rem0);
                lemma_suffix_trans(rem0.skip(ws_len(rem0)), rem0, w);
            }
        }
    }
}

/// The leftover of a parsed record is a suffix of the record's window.
pub proof fn lemma_leftover_in_window(s: Seq<char>)
    ensures
        match spec_record(s) {
            Ok((rest, rec)) => suffix_of(rec.leftover, record_window(s).0),
            Err(sec) => true,
        },
{
    let w = record_window(s).0;
    lemma_spec_header_suffix(w);
    match spec_header(w) {
        Some((ss, sd, r0)) => {
            lemma_spec_neow_suffix(r0);
            match spec_neow(r0) {
                Some((r1, neow)) => {
                    lemma_spec_gobble_suffix(r1);
                    match spec_gobble_list(r1) {
                        Some((r2, combats)) => {
                            lemma_spec_gobble_suffix(r2);
                            match spec_gobble_list(r2) {
                                Some((r3, bosses)) => {
                                    lemma_spec_labeled_suffix(r3, "Events:"@);
                                    match spec_labeled(r3, "Events:"@) {
                                        Some((r4, events)) => {
                                            lemma_spec_labeled_suffix(r4, "True map path:"@);
                                            match spec_labeled(r4, "True map path:"@) {
                                                Some((r5, tmp)) => {
                                                    lemma_spec_bounded_suffix(
                                                        r5,
                                                        "Card choices:"@,
                                                        "Potions:"@,
                                                    );
                                                    match spec_bounded_floors(
                                                        r5,
                                                        "Card choices:"@,
                                                        "Potions:"@,
                                                    ) {
                                                        Some((r6, cards)) => {
                                                            lemma_spec_bounded_suffix(
                                                                r6,
                                                                "Potions:"@,
                                                                "Other cards:"@,
                                                            );
                                                            match spec_bounded_floors(
                                                                r6,
                                                                "Potions:"@,
                                                                "Other cards:"@,
                                                            ) {
                                                                Some((r7, pots)) => {
                                                                    lemma_spec_relics_suffix(r7);
                                                                    match spec_relics(r7) {
                                                                        Ok((r12, pools)) => {
                                                                            lemma_suffix_trans(
                                                                                r1,
                                                                                r0,
                                                                                w,
                                                                            );
                                                                            lemma_suffix_trans(
                                                                                r2,
                                                                                r1,
                                                                                w,
                                                                            );
                                                                            lemma_suffix_trans(
                                                                                r3,
                                                                                r2,
                                                                                w,
                                                                            );
                                                                            lemma_suffix_trans(
                                                                                r4,
                                                                                r3,
                                                                                w,
                                                                            );
                                                                            lemma_suffix_trans(
                                                                                r5,
                                                                                r4,
                                                                                w,
                                                                            );
                                                                            lemma_suffix_trans(
                                                                                r6,
                                                                                r5,
                                                                                w,
                                                                            );
                                                                            lemma_suffix_trans(
                                                                                r7,
                                                                                r6,
                                                                                w,
                                                                            );
                                                                            lemma_suffix_trans(
                                                                                r12,
                                                                                r7,
                                                                                w,
                                                                            );
                                                                        },
                                                                        Err(sec) => {},
                                                                    }
                                                                },
                                                                None => {},
                                                            }
                                                        },
                                                        None => {},
                                                    }
                                                },
                                                None => {},
                                            }
                                        },
                                        None => {},
                                    }
                                },
                                None => {},
                            }
                        },
                        None => {},
                    }
                },
                None => {},
            }
        },
        None => {},
    }
}

/// A record cut off by the separator line keeps a leftover in which the
/// separator never occurs: the window ends at the separator's first
/// occurrence, and the leftover is part of the window.
pub proof fn lemma_leftover_no_separator(s: Seq<char>)
    requires
        first_at(s, separator()) is Some,
    ensures
        match spec_record(s) {
            Ok((rest, rec)) => forall|j: int| !contains_at(rec.leftover, j, separator()),
            Err(sec) => true,
        },
{
    reveal_strlit("#####################################");
    lemma_first_at(s, separator());
    lemma_leftover_in_window(s);
    match spec_record(s) {
        Ok((rest, rec)) => {
            match first_at(s, separator()) {
                Some(i) => {
                    let w = s.take(i);
                    assert(w == record_window(s).0);
                    let k = choose|k: int| 0 <= k <= w.len() && rec.leftover == w.skip(k);
                    assert forall|j: int| !contains_at(rec.leftover, j, separator()) by {
                        if contains_at(rec.leftover, j, separator()) {
                            assert(contains_at(w.skip(k), j, separator()));
                            lemma_contains_at_skip(w, k, j, separator());
                            assert(contains_at(w, k + j, separator()));
                            assert(w.subrange(k + j, k + j + separator().len() as int) =~= s.subrange(
                                k + j,
                                k + j + separator().len() as int,
                            ));
                            assert(contains_at(s, k + j, separator()));
                            assert(k + j < i);
                        }
                    }
                },
                None => {},
            }
        },
        Err(sec) => {},
    }
}

/// A record whose sections up to the bosses list parse, but whose window
/// nowhere holds the `Events:` marker, fails naming that section.
pub proof fn lemma_missing_events(s: Seq<char>)
    requires
        ({
            let w = record_window(s).0;
            match spec_header(w) {
                Some((ss, sd, r0)) => match spec_neow(r0) {
                    Some((r1, neow)) => match spec_gobble_list(r1) {
                        Some((r2, combats)) => match spec_gobble_list(r2) {
                            Some((r3, bosses)) => first_at(r3, "Events:"@) is None,
                            None => false,
                        },
                        None => false,
                    },
                    None => false,
                },
                None => false,
            }
        }),
    ensures
        spec_record(s) == Err::<(Seq<char>, RecordModel), Seq<char>>("Events:"@),
{
}

/// A transcript bearing a seed marker whose first record reaches the events
/// section and finds no `Events:` marker fails as a whole, naming that
/// section — it never silently yields an empty sequence.
pub proof fn lemma_missing_events_transcript(s: Seq<char>, i: int)
    requires
        first_at(s, "Seed:"@) == Some(i),
        ({
            let w = record_window(s.skip(i)).0;
            match spec_header(w) {
                Some((ss, sd, r0)) => match spec_neow(r0) {
                    Some((r1, neow)) => match spec_gobble_list(r1) {
                        Some((r2, combats)) => match spec_gobble_list(r2) {
                            Some((r3, bosses)) => first_at(r3, "Events:"@) is None,
                            None => false,
                        },
                        None => false,
                    },
                    None => false,
                },
                None => false,
            }
        }),
    ensures
        spec_parse(s) == Err::<(Seq<char>, Seq<RecordModel>), Seq<char>>("Events:"@),
{
    lemma_missing_events(s.skip(i));
    lemma_first_at(s, "Seed:"@);
    lemma_contains_at_skip(s, i, 0, "Seed:"@);
    lemma_first_at_is(s.skip(i), "Seed:"@, 0);
}

} // verus!
