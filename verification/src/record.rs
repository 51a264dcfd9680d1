//! The per-record assembler.
//!
//! One record's text segment runs up to (and consumes) the 37-character
//! `#` separator line; with no separator, the whole remaining input is the
//! segment's window.  Inside the window the sections are read strictly in
//! order: seed header, Neow options, combats, bosses, events, map path,
//! card choices, potions, and the five relic pools.  Whatever text then
//! remains becomes the record's `leftover`.  Any failing section aborts the
//! record, naming the section.

use vstd::prelude::*;
use vstd::string::*;
use crate::Error;
use crate::RecordModel;
use crate::SearchResult;
use crate::structural_named;
use crate::chars::{digit_count, digits_len, nonws_count, nonws_len, skip_ws, ws_len};
use crate::find::{contains_at, find_str, first_at, lemma_first_at, match_at};
use crate::extract::{
    gobble_around_events, gobble_around_raw_relic_lists, gobble_around_string_vec,
    gobble_around_true_map_map, spec_gobble_list, spec_labeled, spec_relics,
};
use crate::floors::{parse_card_choices, parse_potions, spec_bounded_floors};
use crate::neow::{parse_neow_options, spec_neow};

verus! {

/// The separator line between records: thirty-seven `#` characters.
pub open spec fn separator() -> Seq<char> {
    "#####################################"@
}

/// The record's window and the remainder past the separator.  With no
/// separator the whole text is the window and nothing remains.
pub open spec fn record_window(s: Seq<char>) -> (Seq<char>, Seq<char>) {
    match first_at(s, separator()) {
        Some(i) => (s.take(i), s.skip(i + separator().len())),
        None => (s, Seq::empty()),
    }
}

/// The seed header: `Seed: `, a run of non-whitespace characters as the
/// displayed seed, then ` (`, a run of digits as the decimal seed, `)`,
/// and trailing whitespace.  Yields (seed_string, seed, remainder).
pub open spec fn spec_header(w: Seq<char>) -> Option<(Seq<char>, Seq<char>, Seq<char>)> {
    if contains_at(w, 0, "Seed: "@) {
        let a = w.skip("Seed: "@.len() as int);
        let ss = a.take(nonws_len(a));
        let b = a.skip(nonws_len(a));
        if contains_at(b, 0, " ("@) {
            let c0 = b.skip(" ("@.len() as int);
            let d = digits_len(c0);
            if contains_at(c0, d, ")"@) {
                let rem0 = c0.skip(d + ")"@.len());
                Some((ss, c0.take(d), rem0.skip(ws_len(rem0))))
            } else {
                None
            }
        } else {
            None
        }
    } else {
        None
    }
}

/// The whole record read: the fixed sequence of sections inside the window,
/// or the name of the first section that fails.
pub open spec fn spec_record(s: Seq<char>) -> Result<(Seq<char>, RecordModel), Seq<char>> {
    let w = record_window(s).0;
    let rest = record_window(s).1;
    match spec_header(w) {
        None => Err("Seed: "@),
        Some((ss, sd, r0)) => match spec_neow(r0) {
            None => Err("Neow Options:"@),
            Some((r1, neow)) => match spec_gobble_list(r1) {
                None => Err("combats"@),
                Some((r2, combats)) => match spec_gobble_list(r2) {
                    None => Err("bosses"@),
                    Some((r3, bosses)) => match spec_labeled(r3, "Events:"@) {
                        None => Err("Events:"@),
                        Some((r4, events)) => match spec_labeled(r4, "True map path:"@) {
                            None => Err("True map path:"@),
                            Some((r5, true_map)) => match spec_bounded_floors(
                                r5,
                                "Card choices:"@,
                                "Potions:"@,
                            ) {
                                None => Err("Card choices:"@),
                                Some((r6, cards)) => match spec_bounded_floors(
                                    r6,
                                    "Potions:"@,
                                    "Other cards:"@,
                                ) {
                                    None => Err("Potions:"@),
                                    Some((r7, pots)) => match spec_relics(r7) {
                                        Err(sec) => Err(sec),
                                        Ok((r12, pools)) => Ok(
                                            (
                                                rest,
                                                RecordModel {
                                                    seed_string: ss,
                                                    seed: sd,
                                                    neow_options: neow,
                                                    combats: combats,
                                                    bosses: bosses,
                                                    events: events,
                                                    true_map_path: true_map,
                                                    card_choices: cards,
                                                    potions: pots,
                                                    common_relics: pools.0,
                                                    uncommon_relics: pools.1,
                                                    rare_relics: pools.2,
                                                    boss_relics: pools.3,
                                                    shop_relics: pools.4,
                                                    leftover: r12,
                                                },
                                            ),
                                        ),
                                    },
                                },
                            },
                        },
                    },
                },
            },
        },
    }
}

/// Assemble one record from the front of `input`.
#[verifier::rlimit(50)]
pub fn parse_search_result<'a>(input: &'a str) -> (r: Result<(&'a str, SearchResult), Error>)
    ensures
        match r {
            Ok((rest, rec)) => spec_record(input@) == Ok::<_, Seq<char>>((rest@, rec@)),
            Err(e) => spec_record(input@) matches Err(sec) && structural_named(e, sec),
        },
{
    let n = input.unicode_len();
    let sep = "#####################################";
    let window: &str;
    let rest: &str;
    match find_str(input, sep) {
        Some(i) => {
            proof {
                lemma_first_at(input@, sep@);
            }
            let sl = sep.unicode_len();
            window = input.substring_char(0, i);
            rest = input.substring_char(i + sl, n);
            proof {
                assert(window@ =~= record_window(input@).0);
                assert(rest@ =~= record_window(input@).1);
            }
        },
        None => {
            window = input;
            rest = input.substring_char(n, n);
            proof {
                assert(rest@ =~= Seq::<char>::empty());
                assert(window@ =~= record_window(input@).0);
                assert(rest@ =~= record_window(input@).1);
            }
        },
    }
    let wn = window.unicode_len();
    if !match_at(window, 0, "Seed: ") {
        return Err(Error::StructuralError(String::from_str("Seed: ")));
    }
    let hk = "Seed: ".unicode_len();
    let a = window.substring_char(hk, wn);
    let an = a.unicode_len();
    let sw = nonws_count(a);
    let seed_str_part = a.substring_char(0, sw);
    let b = a.substring_char(sw, an);
    let bn = b.unicode_len();
    if !match_at(b, 0, " (") {
        return Err(Error::StructuralError(String::from_str("Seed: ")));
    }
    let pk = " (".unicode_len();
    let c0 = b.substring_char(pk, bn);
    let cn = c0.unicode_len();
    let d = digit_count(c0);
    if !match_at(c0, d, ")") {
        return Err(Error::StructuralError(String::from_str("Seed: ")));
    }
    let seed_digits = c0.substring_char(0, d);
    let rk = ")".unicode_len();
    let after = c0.substring_char(d + rk, cn);
    let r0 = skip_ws(after);
    proof {
        assert(a@ =~= window@.skip("Seed: "@.len() as int));
        assert(seed_str_part@ =~= a@.take(nonws_len(a@)));
        assert(b@ =~= a@.skip(nonws_len(a@)));
        assert(c0@ =~= b@.skip(" ("@.len() as int));
        assert(seed_digits@ =~= c0@.take(digits_len(c0@)));
        assert(after@ =~= c0@.skip(digits_len(c0@) + ")"@.len()));
        assert(spec_header(window@) == Some((seed_str_part@, seed_digits@, r0@)));
    }
    let (r1, neow_options) = match parse_neow_options(r0) {
        Ok(p) => p,
        Err(e) => {
            return Err(e);
        },
    };
    let (r2, combats) = match gobble_around_string_vec(r1) {
        Ok(p) => p,
        Err(_) => {
            return Err(Error::StructuralError(String::from_str("combats")));
        },
    };
    let (r3, bosses) = match gobble_around_string_vec(r2) {
        Ok(p) => p,
        Err(_) => {
            return Err(Error::StructuralError(String::from_str("bosses")));
        },
    };
    let (r4, events) = match gobble_around_events(r3) {
        Ok(p) => p,
        Err(e) => {
            return Err(e);
        },
    };
    let (r5, true_map_path) = match gobble_around_true_map_map(r4) {
        Ok(p) => p,
        Err(e) => {
            return Err(e);
        },
    };
    let (r6, card_choices) = match parse_card_choices(r5) {
        Ok(p) => p,
        Err(e) => {
            return Err(e);
        },
    };
    let (r7, potions) = match parse_potions(r6) {
        Ok(p) => p,
        Err(e) => {
            return Err(e);
        },
    };
    let (r12, pools) = match gobble_around_raw_relic_lists(r7) {
        Ok(p) => p,
        Err(e) => {
            return Err(e);
        },
    };
    let (common_relics, uncommon_relics, rare_relics, boss_relics, shop_relics) = pools;
    let rec = SearchResult {
        seed_string: String::from_str(seed_str_part),
        seed: String::from_str(seed_digits),
        neow_options,
        combats,
        bosses,
        events,
        true_map_path,
        card_choices,
        potions,
        common_relics,
        uncommon_relics,
        rare_relics,
        boss_relics,
        shop_relics,
        leftover: String::from_str(r12),
    };
    Ok((rest, rec))
}

} // verus!
