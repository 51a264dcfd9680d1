//! Decoder for the console transcript printed by the seed-search mod loader.
//!
//! One run of the external tool prints a freeform transcript holding one
//! section per simulated seed.  The library turns that text into an ordered
//! sequence of structured records.  Everything here is pure text processing;
//! locating the installation, reading the configuration file and spawning the
//! external process are thin collaborators that live outside the library.

#![allow(unused_imports)]
use vstd::prelude::*;

pub mod bracket;
pub mod chars;
pub mod driver;
pub mod extract;
pub mod find;
pub mod floors;
pub mod laws;
pub mod list;
pub mod neow;
pub mod paths;
pub mod record;

pub use driver::parse;
pub use driver::parse_search_results;

verus! {

/// One failure value per parse attempt, tagged by where the fault lies.
///
/// `StructuralError` is the parser's own: a required literal marker or
/// bracket structure was missing, and the payload names the failing section.
/// `EncodingError` and `LaunchError` belong to the collaborators that capture
/// the transcript; they are carried through without inspection.
#[derive(Debug, PartialEq)]
pub enum Error {
    StructuralError(String),
    EncodingError(String),
    LaunchError(String),
}

/// Holds when `e` is a structural failure naming exactly `section`.
pub open spec fn structural_named(e: Error, section: Seq<char>) -> bool {
    match e {
        Error::StructuralError(name) => name@ == section,
        Error::EncodingError(_) => false,
        Error::LaunchError(_) => false,
    }
}

/// The located game installation: the directory itself plus the two paths,
/// derived from it, that a launch collaborator needs.
pub struct GameHome {
    pub home: String,
    pub java_w: String,
    pub mod_the_spire: String,
}

/// The structured decoding of one seed-run's section of the transcript.
///
/// Every list preserves the order of the source text and every item is
/// trimmed of surrounding whitespace.  An empty bracket pair in the source
/// yields a list holding one empty string, never an empty list.  `leftover`
/// keeps the unconsumed tail of the record's text window for diagnosis.
#[derive(Debug, PartialEq)]
pub struct SearchResult {
    pub seed_string: String,
    pub seed: String,
    pub neow_options: Vec<String>,
    pub combats: Vec<String>,
    pub bosses: Vec<String>,
    pub events: Vec<String>,
    pub true_map_path: Vec<String>,
    pub card_choices: Vec<(String, Vec<String>)>,
    pub potions: Vec<(String, Vec<String>)>,
    pub common_relics: Vec<String>,
    pub uncommon_relics: Vec<String>,
    pub rare_relics: Vec<String>,
    pub boss_relics: Vec<String>,
    pub shop_relics: Vec<String>,
    pub leftover: String,
}

/// The mathematical value of a `SearchResult`: the same fields as sequences.
pub ghost struct RecordModel {
    pub seed_string: Seq<char>,
    pub seed: Seq<char>,
    pub neow_options: Seq<Seq<char>>,
    pub combats: Seq<Seq<char>>,
    pub bosses: Seq<Seq<char>>,
    pub events: Seq<Seq<char>>,
    pub true_map_path: Seq<Seq<char>>,
    pub card_choices: Seq<(Seq<char>, Seq<Seq<char>>)>,
    pub potions: Seq<(Seq<char>, Seq<Seq<char>>)>,
    pub common_relics: Seq<Seq<char>>,
    pub uncommon_relics: Seq<Seq<char>>,
    pub rare_relics: Seq<Seq<char>>,
    pub boss_relics: Seq<Seq<char>>,
    pub shop_relics: Seq<Seq<char>>,
    pub leftover: Seq<char>,
}

impl View for SearchResult {
    type V = RecordModel;

    open spec fn view(&self) -> RecordModel {
        RecordModel {
            seed_string: self.seed_string@,
            seed: self.seed@,
            neow_options: self.neow_options.deep_view(),
            combats: self.combats.deep_view(),
            bosses: self.bosses.deep_view(),
            events: self.events.deep_view(),
            true_map_path: self.true_map_path.deep_view(),
            card_choices: self.card_choices.deep_view(),
            potions: self.potions.deep_view(),
            common_relics: self.common_relics.deep_view(),
            uncommon_relics: self.uncommon_relics.deep_view(),
            rare_relics: self.rare_relics.deep_view(),
            boss_relics: self.boss_relics.deep_view(),
            shop_relics: self.shop_relics.deep_view(),
            leftover: self.leftover@,
        }
    }
}

impl DeepView for SearchResult {
    type V = RecordModel;

    open spec fn deep_view(&self) -> RecordModel {
        self.view()
    }
}

} // verus!
