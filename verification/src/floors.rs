//! Floor entries and the bounded floor groups.
//!
//! A floor entry is `Floor <digits>: <list>`.  The bounded groups (card
//! choices, potions) isolate a sub-window between a leading and a trailing
//! marker and read zero or more floor entries inside it; whatever of the
//! window they do not match is discarded.

use vstd::prelude::*;
use vstd::string::*;
use crate::Error;
use crate::structural_named;
use crate::chars::{digit_count, digits_len, lemma_run_len, digit_pred, skip_ws, ws_len, ws_pred, run_len};
use crate::find::{contains_at, find_str, first_at, lemma_first_at, match_at};
use crate::list::{parse_string_vec, spec_list};
use crate::bracket::{bb_read, lemma_bb_read_len};

verus! {

/// One floor entry: the literal `Floor `, one or more digits as the floor
/// label, the literal `: `, then a list decode.
pub open spec fn spec_floor(s: Seq<char>) -> Option<(Seq<char>, (Seq<char>, Seq<Seq<char>>))> {
    if contains_at(s, 0, "Floor "@) {
        let a = s.skip("Floor "@.len() as int);
        let d = digits_len(a);
        if d >= 1 && contains_at(a, d, ": "@) {
            match spec_list(a.skip(d + ": "@.len())) {
                Some((rest, items)) => Some((rest, (a.take(d), items))),
                None => None,
            }
        } else {
            None
        }
    } else {
        None
    }
}

/// A successful list decode leaves a strictly shorter remainder.
pub proof fn lemma_spec_list_len(s: Seq<char>)
    ensures
        match spec_list(s) {
            Some((rest, items)) => rest.len() < s.len(),
            None => true,
        },
{
    lemma_bb_read_len(s);
}

/// A successful floor entry leaves a strictly shorter remainder.
pub proof fn lemma_spec_floor_len(s: Seq<char>)
    ensures
        match spec_floor(s) {
            Some((rest, entry)) => rest.len() < s.len(),
            None => true,
        },
{
    if contains_at(s, 0, "Floor "@) {
        let a = s.skip("Floor "@.len() as int);
        let d = digits_len(a);
        lemma_run_len(a, digit_pred());
        if d >= 1 && contains_at(a, d, ": "@) {
            lemma_spec_list_len(a.skip(d + ": "@.len() as int));
        }
    }
}

/// Zero or more floor entries separated by whitespace, reading as many as
/// match from the front of `s`.
pub open spec fn spec_floors(s: Seq<char>) -> Seq<(Seq<char>, Seq<Seq<char>>)>
    decreases s.len(),
{
    match spec_floor(s) {
        Some((rest, entry)) => {
            let rest2 = rest.skip(ws_len(rest));
            if rest2.len() < s.len() {
                seq![entry] + spec_floors(rest2)
            } else {
                seq![entry]
            }
        },
        None => Seq::empty(),
    }
}

/// The guard inside `spec_floors` always holds, so it unfolds plainly.
pub proof fn lemma_spec_floors_unfold(s: Seq<char>)
    ensures
        match spec_floor(s) {
            Some((rest, entry)) => {
                &&& rest.skip(ws_len(rest)).len() < s.len()
                &&& spec_floors(s) == seq![entry] + spec_floors(rest.skip(ws_len(rest)))
            },
            None => spec_floors(s) == Seq::<(Seq<char>, Seq<Seq<char>>)>::empty(),
        },
{
    lemma_spec_floor_len(s);
    match spec_floor(s) {
        Some((rest, entry)) => {
            lemma_run_len(rest, ws_pred());
        },
        None => {},
    }
}

/// A bounded floor group: the leading marker at the front, whitespace, then
/// everything up to (not including) the trailing marker as the sub-window,
/// in which floor entries are read.
pub open spec fn spec_bounded_floors(s: Seq<char>, lead: Seq<char>, trail: Seq<char>) -> Option<
    (Seq<char>, Seq<(Seq<char>, Seq<Seq<char>>)>),
> {
    if contains_at(s, 0, lead) {
        let a = s.skip(lead.len() as int);
        let b = a.skip(ws_len(a));
        match first_at(b, trail) {
            Some(i) => Some((b.skip(i), spec_floors(b.take(i)))),
            None => None,
        }
    } else {
        None
    }
}

/// Read one floor entry.
pub fn parse_floor<'a>(input: &'a str) -> (r: Result<(&'a str, (String, Vec<String>)), Error>)
    ensures
        match r {
            Ok((rest, entry)) => spec_floor(input@) == Some((rest@, entry.deep_view())),
            Err(e) => spec_floor(input@) is None && structural_named(e, "Floor "@),
        },
{
    let n = input.unicode_len();
    if !match_at(input, 0, "Floor ") {
        return Err(Error::StructuralError(String::from_str("Floor ")));
    }
    let k = "Floor ".unicode_len();
    let a = input.substring_char(k, n);
    let an = a.unicode_len();
    let d = digit_count(a);
    if d == 0 {
        return Err(Error::StructuralError(String::from_str("Floor ")));
    }
    if !match_at(a, d, ": ") {
        return Err(Error::StructuralError(String::from_str("Floor ")));
    }
    let m2 = ": ".unicode_len();
    let after = a.substring_char(d + m2, an);
    match parse_string_vec(after) {
        Err(_) => Err(Error::StructuralError(String::from_str("Floor "))),
        Ok((rest, items)) => {
            let label = String::from_str(a.substring_char(0, d));
            proof {
                assert(label@ =~= a@.take(d as int));
            }
            Ok((rest, (label, items)))
        },
    }
}

/// Read floor entries from the front of `window` until one fails to match.
fn parse_floors_window(window: &str) -> (entries: Vec<(String, Vec<String>)>)
    ensures
        entries.deep_view() == spec_floors(window@),
{
    let mut done: Vec<(String, Vec<String>)> = Vec::new();
    let mut cur: &str = window;
    proof {
        assert(done.deep_view() =~= Seq::<(Seq<char>, Seq<Seq<char>>)>::empty());
    }
    loop
        invariant_except_break
            spec_floors(window@) =~= done.deep_view() + spec_floors(cur@),
        ensures
            spec_floors(window@) =~= done.deep_view(),
        decreases cur@.len(),
    {
        let ghost pre = done.deep_view();
        match parse_floor(cur) {
            Err(_) => {
                proof {
                    lemma_spec_floors_unfold(cur@);
                }
                break;
            },
            Ok((r2, entry)) => {
                let ghost ev = entry.deep_view();
                done.push(entry);
                let next = skip_ws(r2);
                proof {
                    lemma_spec_floors_unfold(cur@);
                    assert(done.deep_view() =~= pre.push(ev));
                    assert(done.deep_view() + spec_floors(next@) =~= pre + (seq![ev]
                        + spec_floors(next@)));
                }
                cur = next;
            },
        }
    }
    done
}

/// Shared reader for the two bounded floor groups.
fn parse_floor_group<'a>(input: &'a str, lead: &str, trail: &str) -> (r: Result<
    (&'a str, Vec<(String, Vec<String>)>),
    Error,
>)
    ensures
        match r {
            Ok((rest, entries)) => spec_bounded_floors(input@, lead@, trail@) == Some((
                rest@,
                entries.deep_view(),
            )),
            Err(e) => spec_bounded_floors(input@, lead@, trail@) is None && structural_named(
                e,
                lead@,
            ),
        },
{
    let n = input.unicode_len();
    if !match_at(input, 0, lead) {
        return Err(Error::StructuralError(String::from_str(lead)));
    }
    let k = lead.unicode_len();
    let a = input.substring_char(k, n);
    let b = skip_ws(a);
    match find_str(b, trail) {
        None => Err(Error::StructuralError(String::from_str(lead))),
        Some(i) => {
            proof {
                lemma_first_at(b@, trail@);
            }
            let bl = b.unicode_len();
            let window = b.substring_char(0, i);
            let rest = b.substring_char(i, bl);
            let entries = parse_floors_window(window);
            proof {
                assert(window@ =~= b@.take(i as int));
                assert(rest@ =~= b@.skip(i as int));
            }
            Ok((rest, entries))
        },
    }
}

/// The card-choice floors: between `Card choices:` and `Potions:`.
pub fn parse_card_choices<'a>(input: &'a str) -> (r: Result<
    (&'a str, Vec<(String, Vec<String>)>),
    Error,
>)
    ensures
        match r {
            Ok((rest, entries)) => spec_bounded_floors(input@, "Card choices:"@, "Potions:"@)
                == Some((rest@, entries.deep_view())),
            Err(e) => spec_bounded_floors(input@, "Card choices:"@, "Potions:"@) is None
                && structural_named(e, "Card choices:"@),
        },
{
    parse_floor_group(input, "Card choices:", "Potions:")
}

/// The potion floors: between `Potions:` and `Other cards:`.
pub fn parse_potions<'a>(input: &'a str) -> (r: Result<
    (&'a str, Vec<(String, Vec<String>)>),
    Error,
>)
    ensures
        match r {
            Ok((rest, entries)) => spec_bounded_floors(input@, "Potions:"@, "Other cards:"@)
                == Some((rest@, entries.deep_view())),
            Err(e) => spec_bounded_floors(input@, "Potions:"@, "Other cards:"@) is None
                && structural_named(e, "Potions:"@),
        },
{
    parse_floor_group(input, "Potions:", "Other cards:")
}

} // verus!
