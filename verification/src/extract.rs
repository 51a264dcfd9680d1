//! Labeled-section extractors.
//!
//! Each extractor scans forward for a literal marker (or, for the unlabeled
//! sections, for the next `[`), consumes it and any following whitespace,
//! applies the list decode, and consumes trailing whitespace.  The five
//! relic pools are five such extractions in a fixed order.

use vstd::prelude::*;
use vstd::string::*;
use crate::Error;
use crate::structural_named;
use crate::chars::{skip_ws, ws_len};
use crate::find::{find_char, find_str, first_at, first_char, lemma_first_at};
use crate::list::{parse_string_vec, spec_list};

verus! {

/// Scan to the next `[`, decode the list there, skip trailing whitespace.
pub open spec fn spec_gobble_list(s: Seq<char>) -> Option<(Seq<char>, Seq<Seq<char>>)> {
    match first_char(s, '[') {
        Some(i) => match spec_list(s.skip(i)) {
            Some((rest, items)) => Some((rest.skip(ws_len(rest)), items)),
            None => None,
        },
        None => None,
    }
}

/// Scan to the first occurrence of the marker `m`, consume it and following
/// whitespace, decode the list there, skip trailing whitespace.
pub open spec fn spec_labeled(s: Seq<char>, m: Seq<char>) -> Option<(Seq<char>, Seq<Seq<char>>)> {
    match first_at(s, m) {
        Some(i) => {
            let a = s.skip(i + m.len());
            let b = a.skip(ws_len(a));
            match spec_list(b) {
                Some((rest, items)) => Some((rest.skip(ws_len(rest)), items)),
                None => None,
            }
        },
        None => None,
    }
}

/// The unlabeled extractor: used for the combats and bosses sections, whose
/// position in the record is purely positional.
pub fn gobble_around_string_vec<'a>(input: &'a str) -> (r: Result<(&'a str, Vec<String>), Error>)
    ensures
        match r {
            Ok((rest, items)) => spec_gobble_list(input@) == Some((rest@, items.deep_view())),
            Err(e) => spec_gobble_list(input@) is None && structural_named(e, "list"@),
        },
{
    let n = input.unicode_len();
    match find_char(input, '[') {
        None => Err(Error::StructuralError(String::from_str("list"))),
        Some(i) => {
            proof {
                crate::find::lemma_first_char(input@, '[');
            }
            let at = input.substring_char(i, n);
            match parse_string_vec(at) {
                Err(_) => Err(Error::StructuralError(String::from_str("list"))),
                Ok((rest, items)) => {
                    let rest2 = skip_ws(rest);
                    Ok((rest2, items))
                },
            }
        },
    }
}

/// The labeled extractor shared by every marker-led list section.
pub fn gobble_labeled<'a>(input: &'a str, marker: &str) -> (r: Result<
    (&'a str, Vec<String>),
    Error,
>)
    ensures
        match r {
            Ok((rest, items)) => spec_labeled(input@, marker@) == Some((rest@, items.deep_view())),
            Err(e) => spec_labeled(input@, marker@) is None && structural_named(e, marker@),
        },
{
    let n = input.unicode_len();
    match find_str(input, marker) {
        None => Err(Error::StructuralError(String::from_str(marker))),
        Some(i) => {
            proof {
                lemma_first_at(input@, marker@);
            }
            let k = marker.unicode_len();
            let a = input.substring_char(i + k, n);
            let b = skip_ws(a);
            match parse_string_vec(b) {
                Err(_) => Err(Error::StructuralError(String::from_str(marker))),
                Ok((rest, items)) => {
                    let rest2 = skip_ws(rest);
                    Ok((rest2, items))
                },
            }
        },
    }
}

/// The events section: the marker `Events:` and its list.
pub fn gobble_around_events<'a>(input: &'a str) -> (r: Result<(&'a str, Vec<String>), Error>)
    ensures
        match r {
            Ok((rest, items)) => spec_labeled(input@, "Events:"@) == Some((
                rest@,
                items.deep_view(),
            )),
            Err(e) => spec_labeled(input@, "Events:"@) is None && structural_named(e, "Events:"@),
        },
{
    gobble_labeled(input, "Events:")
}

/// The map path section: the marker `True map path:` and its list.
pub fn gobble_around_true_map_map<'a>(input: &'a str) -> (r: Result<(&'a str, Vec<String>), Error>)
    ensures
        match r {
            Ok((rest, items)) => spec_labeled(input@, "True map path:"@) == Some((
                rest@,
                items.deep_view(),
            )),
            Err(e) => spec_labeled(input@, "True map path:"@) is None && structural_named(
                e,
                "True map path:"@,
            ),
        },
{
    gobble_labeled(input, "True map path:")
}

/// The five relic pools, in their fixed order, or the first missing label.
pub open spec fn spec_relics(s: Seq<char>) -> Result<
    (Seq<char>, (Seq<Seq<char>>, Seq<Seq<char>>, Seq<Seq<char>>, Seq<Seq<char>>, Seq<Seq<char>>)),
    Seq<char>,
> {
    match spec_labeled(s, "Raw common relic list:"@) {
        None => Err("Raw common relic list:"@),
        Some((r1, commons)) => match spec_labeled(r1, "Raw uncommon relic list:"@) {
            None => Err("Raw uncommon relic list:"@),
            Some((r2, uncommons)) => match spec_labeled(r2, "Raw rare relic list:"@) {
                None => Err("Raw rare relic list:"@),
                Some((r3, rares)) => match spec_labeled(r3, "Raw boss relic list:"@) {
                    None => Err("Raw boss relic list:"@),
                    Some((r4, bosses)) => match spec_labeled(r4, "Raw shop relic list:"@) {
                        None => Err("Raw shop relic list:"@),
                        Some((r5, shops)) => Ok((r5, (commons, uncommons, rares, bosses, shops))),
                    },
                },
            },
        },
    }
}

/// Extract the five raw relic pools in their fixed order.
pub fn gobble_around_raw_relic_lists<'a>(input: &'a str) -> (r: Result<
    (&'a str, (Vec<String>, Vec<String>, Vec<String>, Vec<String>, Vec<String>)),
    Error,
>)
    ensures
        match r {
            Ok((rest, pools)) => spec_relics(input@) == Ok::<_, Seq<char>>((
                rest@,
                pools.deep_view(),
            )),
            Err(e) => spec_relics(input@) matches Err(sec) && structural_named(e, sec),
        },
{
    let (rest, commons) = match gobble_labeled(input, "Raw common relic list:") {
        Ok(p) => p,
        Err(e) => {
            return Err(e);
        },
    };
    let (rest, uncommons) = match gobble_labeled(rest, "Raw uncommon relic list:") {
        Ok(p) => p,
        Err(e) => {
            return Err(e);
        },
    };
    let (rest, rares) = match gobble_labeled(rest, "Raw rare relic list:") {
        Ok(p) => p,
        Err(e) => {
            return Err(e);
        },
    };
    let (rest, bosses) = match gobble_labeled(rest, "Raw boss relic list:") {
        Ok(p) => p,
        Err(e) => {
            return Err(e);
        },
    };
    let (rest, shops) = match gobble_labeled(rest, "Raw shop relic list:") {
        Ok(p) => p,
        Err(e) => {
            return Err(e);
        },
    };
    Ok((rest, (commons, uncommons, rares, bosses, shops)))
}

} // verus!
