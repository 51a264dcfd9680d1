//! Path derivation for the located game installation.
//!
//! The library only computes path text; whether a file exists, and running
//! the external tool, belong to the collaborators around the library.  The
//! join uses a forward slash unless the base already ends in a separator.

use vstd::prelude::*;
use vstd::string::*;
use crate::Error;
use crate::GameHome;
use crate::SearchResult;
use crate::structural_named;
use crate::RecordModel;
use crate::driver::{parse_search_results, spec_parse};

verus! {

/// `base` joined with the relative path `rel`.
pub open spec fn join_path_spec(base: Seq<char>, rel: Seq<char>) -> Seq<char> {
    if base.len() > 0 && (base.last() == '/' || base.last() == '\\') {
        base + rel
    } else {
        base + seq!['/'] + rel
    }
}

/// Join a base directory and a relative path as text.
pub fn join_path(base: &str, rel: &str) -> (p: String)
    ensures
        p@ == join_path_spec(base@, rel@),
{
    let n = base.unicode_len();
    let mut p = String::from_str(base);
    if n == 0 || !(base.get_char(n - 1) == '/' || base.get_char(n - 1) == '\\') {
        p.append("/");
        proof {
            reveal_strlit("/");
            assert(p@ =~= base@ + seq!['/']);
        }
    }
    p.append(rel);
    proof {
        assert(p@ =~= join_path_spec(base@, rel@));
    }
    p
}

impl GameHome {
    /// Where the search configuration file of this installation stands.
    pub fn search_config_path(&self) -> (p: String)
        ensures
            p@ == join_path_spec(self.home@, "searchConfig.json"@),
    {
        join_path(self.home.as_str(), "searchConfig.json")
    }

    /// Decode the captured output of one search run of this installation.
    pub fn search_results(&self, search_output: &str) -> (r: Result<Vec<SearchResult>, Error>)
        ensures
            match r {
                Ok(results) => spec_parse(search_output@) matches Ok((rest, recs))
                    && results.deep_view() == recs,
                Err(e) => spec_parse(search_output@) matches Err(sec) && structural_named(e, sec),
            },
    {
        match parse_search_results(search_output) {
            Ok((_rest, results)) => Ok(results),
            Err(e) => Err(e),
        }
    }
}

} // verus!
