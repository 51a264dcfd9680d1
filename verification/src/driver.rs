//! The top-level driver.
//!
//! Skip to the first `Seed:` in the transcript (none at all means an empty
//! result, not an error).  Then assemble records one after another, with
//! whitespace between them, stopping cleanly once no further `Seed:`-bearing
//! text remains.  A failing record with a `Seed:` still ahead aborts the
//! whole parse: no partial sequence is returned for a malformed transcript.
//! Finally an optional trailing `<digits> seeds found:` summary list is
//! recognized and discarded; its absence is never an error.

use vstd::prelude::*;
use vstd::string::*;
use crate::Error;
use crate::RecordModel;
use crate::SearchResult;
use crate::structural_named;
use crate::chars::{digit_count, digits_len, lemma_run_len, skip_ws, ws_len, ws_pred, digit_pred};
use crate::find::{
    contains_at, find_str, first_at, lemma_contains_at_skip, lemma_first_at, lemma_first_at_is,
    match_at,
};
use crate::list::{parse_string_vec, spec_list};
use crate::record::{parse_search_result, record_window, separator, spec_header, spec_record};

verus! {

/// A record consumes part of the text: what follows is strictly shorter.
pub proof fn lemma_spec_record_len(s: Seq<char>)
    ensures
        match spec_record(s) {
            Ok((rest, rec)) => rest.len() < s.len(),
            Err(sec) => true,
        },
{
    reveal_strlit("#####################################");
    reveal_strlit("Seed: ");
    match spec_record(s) {
        Ok((rest, rec)) => {
            match first_at(s, separator()) {
                Some(i) => {
                    lemma_first_at(s, separator());
                },
                None => {
                    assert(record_window(s).1 =~= Seq::<char>::empty());
                    assert(spec_header(s) is Some);
                    assert(contains_at(s, 0, "Seed: "@));
                },
            }
        },
        Err(sec) => {},
    }
}

/// The record sequence read from `s`, or the failing section of the first
/// malformed record.  Reading stops cleanly when no `Seed:` remains ahead.
pub open spec fn spec_records(s: Seq<char>) -> Result<(Seq<char>, Seq<RecordModel>), Seq<char>>
    decreases s.len(),
{
    if first_at(s, "Seed:"@) is None {
        Ok((s, Seq::empty()))
    } else {
        match spec_record(s) {
            Err(sec) => Err(sec),
            Ok((rest, rec)) => {
                let rest2 = rest.skip(ws_len(rest));
                if rest2.len() < s.len() {
                    match spec_records(rest2) {
                        Ok((fin, recs)) => Ok((fin, seq![rec] + recs)),
                        Err(sec) => Err(sec),
                    }
                } else {
                    Ok((s, Seq::empty()))
                }
            },
        }
    }
}

/// The guard inside `spec_records` always holds, so it unfolds plainly.
pub proof fn lemma_spec_records_unfold(s: Seq<char>)
    ensures
        match spec_record(s) {
            Ok((rest, rec)) => {
                &&& rest.skip(ws_len(rest)).len() < s.len()
                &&& (first_at(s, "Seed:"@) is Some ==> spec_records(s) == (match spec_records(
                    rest.skip(ws_len(rest)),
                ) {
                    Ok((fin, recs)) => Ok::<_, Seq<char>>((fin, seq![rec] + recs)),
                    Err(sec) => Err::<(Seq<char>, Seq<RecordModel>), _>(sec),
                }))
            },
            Err(sec) => first_at(s, "Seed:"@) is Some ==> spec_records(s) == Err::<
                (Seq<char>, Seq<RecordModel>),
                _,
            >(sec),
        },
{
    lemma_spec_record_len(s);
    match spec_record(s) {
        Ok((rest, rec)) => {
            lemma_run_len(rest, ws_pred());
        },
        Err(sec) => {},
    }
}

/// The optional trailing summary: a run of digits, ` seeds found:`,
/// whitespace, then a list decode.
pub open spec fn spec_seed_list(s: Seq<char>) -> Option<(Seq<char>, Seq<Seq<char>>)> {
    let d = digits_len(s);
    if contains_at(s, d, " seeds found:"@) {
        let a = s.skip(d + " seeds found:"@.len());
        let b = a.skip(ws_len(a));
        spec_list(b)
    } else {
        None
    }
}

/// The whole parse: records from the first `Seed:` on, then the optional
/// summary, whose absence changes nothing.
pub open spec fn spec_parse(s: Seq<char>) -> Result<(Seq<char>, Seq<RecordModel>), Seq<char>> {
    match first_at(s, "Seed:"@) {
        None => Ok((s, Seq::empty())),
        Some(i) => match spec_records(s.skip(i)) {
            Err(sec) => Err(sec),
            Ok((rest, recs)) => match spec_seed_list(rest) {
                Some((r2, found)) => Ok((r2, recs)),
                None => Ok((rest, recs)),
            },
        },
    }
}

/// Read the optional trailing `<digits> seeds found:` summary list.
pub fn parse_seed_list<'a>(input: &'a str) -> (r: Result<(&'a str, Vec<String>), Error>)
    ensures
        match r {
            Ok((rest, found)) => spec_seed_list(input@) == Some((rest@, found.deep_view())),
            Err(e) => spec_seed_list(input@) is None && structural_named(e, "seeds found"@),
        },
{
    let n = input.unicode_len();
    let d = digit_count(input);
    if !match_at(input, d, " seeds found:") {
        return Err(Error::StructuralError(String::from_str("seeds found")));
    }
    let mk = " seeds found:".unicode_len();
    let a = input.substring_char(d + mk, n);
    let b = skip_ws(a);
    proof {
        assert(a@ =~= input@.skip(digits_len(input@) + " seeds found:"@.len()));
    }
    match parse_string_vec(b) {
        Err(_) => Err(Error::StructuralError(String::from_str("seeds found"))),
        Ok((rest, found)) => Ok((rest, found)),
    }
}

/// Parse the whole transcript into its ordered record sequence.
///
/// Returns the unconsumed remainder alongside the records.  A transcript
/// with no `Seed:` at all gives an empty sequence; a malformed record with
/// a `Seed:` still ahead gives the error naming the failing section.
pub fn parse_search_results<'a>(input: &'a str) -> (r: Result<(&'a str, Vec<SearchResult>), Error>)
    ensures
        match r {
            Ok((rest, results)) => spec_parse(input@) == Ok::<_, Seq<char>>((
                rest@,
                results.deep_view(),
            )),
            Err(e) => spec_parse(input@) matches Err(sec) && structural_named(e, sec),
        },
{
    let n = input.unicode_len();
    match find_str(input, "Seed:") {
        None => {
            let results: Vec<SearchResult> = Vec::new();
            proof {
                assert(results.deep_view() =~= Seq::<RecordModel>::empty());
            }
            Ok((input, results))
        },
        Some(i0) => {
            proof {
                lemma_first_at(input@, "Seed:"@);
            }
            let start = input.substring_char(i0, n);
            let ghost sv = start@;
            let mut cur: &str = start;
            let mut out: Vec<SearchResult> = Vec::new();
            proof {
                assert(out.deep_view() =~= Seq::<RecordModel>::empty());
                match spec_records(sv) {
                    Ok((fin, recs)) => {
                        assert(out.deep_view() + recs =~= recs);
                    },
                    Err(sec) => {},
                }
            }
            loop
                invariant_except_break
                    sv == start@,
                    n == input@.len(),
                    sv =~= input@.skip(i0 as int),
                    first_at(input@, "Seed:"@) == Some(i0 as int),
                    (match spec_records(cur@) {
                        Ok((fin, recs)) => spec_records(sv) == Ok::<_, Seq<char>>((
                            fin,
                            out.deep_view() + recs,
                        )),
                        Err(sec) => spec_records(sv) == Err::<(Seq<char>, Seq<RecordModel>), _>(
                            sec,
                        ),
                    }),
                ensures
                    spec_records(sv) == Ok::<_, Seq<char>>((cur@, out.deep_view())),
                decreases cur@.len(),
            {
                let ghost pre = out.deep_view();
                match find_str(cur, "Seed:") {
                    None => {
                        proof {
                            assert(spec_records(cur@) == Ok::<_, Seq<char>>((
                                cur@,
                                Seq::<RecordModel>::empty(),
                            )));
                            assert(pre + Seq::<RecordModel>::empty() =~= pre);
                        }
                        break;
                    },
                    Some(_) => {
                        match parse_search_result(cur) {
                            Ok((r2, rec)) => {
                                let ghost rv = rec@;
                                out.push(rec);
                                let next = skip_ws(r2);
                                proof {
                                    lemma_spec_records_unfold(cur@);
                                    assert(out.deep_view() =~= pre.push(rv));
                                    match spec_records(next@) {
                                        Ok((fin, recs)) => {
                                            assert(pre + (seq![rv] + recs) =~= out.deep_view()
                                                + recs);
                                        },
                                        Err(sec) => {},
                                    }
                                }
                                cur = next;
                            },
                            Err(e) => {
                                proof {
                                    lemma_spec_records_unfold(cur@);
                                }
                                return Err(e);
                            },
                        }
                    },
                }
            }
            let fin = match parse_seed_list(cur) {
                Ok((r2, _found)) => r2,
                Err(_) => cur,
            };
            Ok((fin, out))
        },
    }
}

/// The parser's outward face: transcript in, record sequence and remainder
/// out, or one error naming the failing section.
pub fn parse<'a>(text: &'a str) -> (r: Result<(Vec<SearchResult>, &'a str), Error>)
    ensures
        match r {
            Ok((results, rest)) => spec_parse(text@) == Ok::<_, Seq<char>>((
                rest@,
                results.deep_view(),
            )),
            Err(e) => spec_parse(text@) matches Err(sec) && structural_named(e, sec),
        },
{
    match parse_search_results(text) {
        Ok((rest, results)) => Ok((results, rest)),
        Err(e) => Err(e),
    }
}

} // verus!
