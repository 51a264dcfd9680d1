//! Tests of the transcript decoder through its public functions.

use seed_search::Error;
use seed_search::GameHome;
use seed_search::bracket::parse_bracket_balanced;
use seed_search::driver::{parse, parse_search_results, parse_seed_list};
use seed_search::floors::{parse_card_choices, parse_floor};
use seed_search::list::parse_string_vec;
use seed_search::neow::parse_neow_options;
use seed_search::record::parse_search_result;

const SEP: &str = "#####################################";

fn one_record_input() -> String {
    "noise Seed: ABC123 (42)\nNeow Options:\n[opt1][opt2][ Lose your starting Relic Obtain a random boss Relic ]\n[enemy1,enemy2]\n[boss1]\nEvents:\n[event1]\nTrue map path:\n[node1,node2]\nCard choices:\nFloor 1: [card1]\nPotions:\nFloor 2: [potion1]\nOther cards:\nRaw common relic list:\n[rc1]\nRaw uncommon relic list:\n[ru1]\nRaw rare relic list:\n[rr1]\nRaw boss relic list:\n[rb1]\nRaw shop relic list:\n[rs1]\n".to_string() + SEP + "\n"
}

#[test]
fn bracket_reader_plain() {
    match parse_bracket_balanced("[a, b,c] tail") {
        Ok((rest, inner)) => {
            assert_eq!(inner, "a, b,c");
            assert_eq!(rest, " tail");
        }
        Err(_) => panic!("well-formed list refused"),
    }
}

#[test]
fn bracket_reader_nested() {
    match parse_bracket_balanced("[a[b]c]rest") {
        Ok((rest, inner)) => {
            assert_eq!(inner, "a[b]c");
            assert_eq!(rest, "rest");
        }
        Err(_) => panic!("nested list refused"),
    }
}

#[test]
fn bracket_reader_rejects_missing_open() {
    assert!(parse_bracket_balanced("x[]").is_err());
    assert!(parse_bracket_balanced("").is_err());
}

#[test]
fn bracket_reader_rejects_unmatched_depth() {
    assert!(parse_bracket_balanced("[a[b]").is_err());
    assert!(parse_bracket_balanced("[abc").is_err());
}

#[test]
fn list_decode_trims_items() {
    match parse_string_vec("[a, b,c]") {
        Ok((rest, items)) => {
            assert_eq!(items, vec!["a".to_string(), "b".to_string(), "c".to_string()]);
            assert_eq!(rest, "");
        }
        Err(_) => panic!("list refused"),
    }
}

#[test]
fn list_decode_empty_brackets_quirk() {
    match parse_string_vec("[]") {
        Ok((_, items)) => assert_eq!(items, vec!["".to_string()]),
        Err(_) => panic!("empty list refused"),
    }
}

#[test]
fn list_decode_trims_whitespace_everywhere() {
    match parse_string_vec("[  a  ,\tb\n, c ]") {
        Ok((_, items)) => {
            assert_eq!(items, vec!["a".to_string(), "b".to_string(), "c".to_string()])
        }
        Err(_) => panic!("list refused"),
    }
}

#[test]
fn list_decode_split_is_not_bracket_aware() {
    // the outer read is nesting-aware, the comma split inside it is plain
    match parse_string_vec("[a[b,c]d]") {
        Ok((rest, items)) => {
            assert_eq!(items, vec!["a[b".to_string(), "c]d".to_string()]);
            assert_eq!(rest, "");
        }
        Err(_) => panic!("nested list refused"),
    }
}

#[test]
fn noise_between_records_aborts_the_parse() {
    let input = format!(
        "{}{}\nnoise {}{}\n",
        record_body("AAA", "1"),
        SEP,
        record_body("BBB", "2"),
        SEP
    );
    match parse_search_results(&input) {
        Ok(_) => panic!("malformed second record accepted"),
        Err(Error::StructuralError(section)) => assert_eq!(section, "Seed: "),
        Err(_) => panic!("wrong error kind"),
    }
}

#[test]
fn floor_entry_reads_label_and_items() {
    match parse_floor("Floor 3: [Strike, Defend]") {
        Ok((rest, (label, items))) => {
            assert_eq!(label, "3");
            assert_eq!(items, vec!["Strike".to_string(), "Defend".to_string()]);
            assert_eq!(rest, "");
        }
        Err(_) => panic!("floor entry refused"),
    }
}

#[test]
fn floor_entry_keeps_leading_zeroes() {
    match parse_floor("Floor 007: [x]") {
        Ok((_, (label, _))) => assert_eq!(label, "007"),
        Err(_) => panic!("floor entry refused"),
    }
}

#[test]
fn floor_entry_missing_colon_fails() {
    assert!(parse_floor("Floor 3 [Strike]").is_err());
    assert!(parse_floor("Floor : [Strike]").is_err());
    assert!(parse_floor("Basement 3: [Strike]").is_err());
}

#[test]
fn card_choices_window_is_bounded() {
    let text = "Card choices:\nFloor 1: [a]\nFloor 2: [b]\ngarbage\nPotions:rest";
    match parse_card_choices(text) {
        Ok((rest, entries)) => {
            assert_eq!(entries.len(), 2);
            assert_eq!(entries[0].0, "1");
            assert_eq!(entries[0].1, vec!["a".to_string()]);
            assert_eq!(entries[1].0, "2");
            assert_eq!(entries[1].1, vec!["b".to_string()]);
            assert_eq!(rest, "Potions:rest");
        }
        Err(_) => panic!("card choices refused"),
    }
}

#[test]
fn card_choices_missing_trailing_marker_fails() {
    assert!(parse_card_choices("Card choices:\nFloor 1: [a]\n").is_err());
}

#[test]
fn neow_options_split_and_cleaned() {
    let text = "Neow Options:\n[opt1][opt2][ Lose your starting Relic Obtain a random boss Relic ]\ntail";
    match parse_neow_options(text) {
        Ok((rest, options)) => {
            assert_eq!(options, vec!["opt1".to_string(), "opt2".to_string()]);
            assert_eq!(rest, "tail");
        }
        Err(_) => panic!("neow options refused"),
    }
}

#[test]
fn neow_options_sentinel_required() {
    assert!(parse_neow_options("Neow Options:\n[opt1][opt2]\ntail").is_err());
}

#[test]
fn end_to_end_single_record() {
    let input = one_record_input();
    let (rest, results) = parse_search_results(&input).expect("transcript refused");
    assert_eq!(results.len(), 1);
    let r = &results[0];
    assert_eq!(r.seed_string, "ABC123");
    assert_eq!(r.seed, "42");
    assert_eq!(r.neow_options, vec!["opt1".to_string(), "opt2".to_string()]);
    assert_eq!(r.combats, vec!["enemy1".to_string(), "enemy2".to_string()]);
    assert_eq!(r.bosses, vec!["boss1".to_string()]);
    assert_eq!(r.events, vec!["event1".to_string()]);
    assert_eq!(r.true_map_path, vec!["node1".to_string(), "node2".to_string()]);
    assert_eq!(r.card_choices, vec![("1".to_string(), vec!["card1".to_string()])]);
    assert_eq!(r.potions, vec![("2".to_string(), vec!["potion1".to_string()])]);
    assert_eq!(r.common_relics, vec!["rc1".to_string()]);
    assert_eq!(r.uncommon_relics, vec!["ru1".to_string()]);
    assert_eq!(r.rare_relics, vec!["rr1".to_string()]);
    assert_eq!(r.boss_relics, vec!["rb1".to_string()]);
    assert_eq!(r.shop_relics, vec!["rs1".to_string()]);
    assert_eq!(rest, "");
}

fn record_body(seed_string: &str, seed: &str) -> String {
    format!(
        "Seed: {seed_string} ({seed})\nNeow Options:\n[o][ Lose your starting Relic Obtain a random boss Relic ]\n[c1]\n[b1]\nEvents:\n[e1]\nTrue map path:\n[m1]\nCard choices:\nPotions:\nOther cards:\nRaw common relic list:\n[r1]\nRaw uncommon relic list:\n[r2]\nRaw rare relic list:\n[r3]\nRaw boss relic list:\n[r4]\nRaw shop relic list:\n[r5]\n"
    )
}

#[test]
fn two_records_in_transcript_order() {
    let input = format!("{}{}\n{}{}\n", record_body("AAA", "1"), SEP, record_body("BBB", "2"), SEP);
    let (_, results) = parse_search_results(&input).expect("transcript refused");
    assert_eq!(results.len(), 2);
    assert_eq!(results[0].seed_string, "AAA");
    assert_eq!(results[0].seed, "1");
    assert_eq!(results[1].seed_string, "BBB");
    assert_eq!(results[1].seed, "2");
}

#[test]
fn record_without_separator_still_parses() {
    let input = record_body("XYZ", "7");
    let (rest, results) = parse_search_results(&input).expect("transcript refused");
    assert_eq!(results.len(), 1);
    assert_eq!(results[0].seed_string, "XYZ");
    assert_eq!(rest, "");
}

#[test]
fn leftover_is_kept_and_reparses_to_nothing() {
    let mut body = record_body("AAA", "1");
    body.push_str("junk tail\n");
    let input = format!("{}{}\n", body, SEP);
    let (_, results) = parse_search_results(&input).expect("transcript refused");
    assert_eq!(results.len(), 1);
    assert_eq!(results[0].leftover, "junk tail\n");
    let (rest2, again) = parse_search_results(&results[0].leftover).expect("leftover refused");
    assert_eq!(again.len(), 0);
    assert_eq!(rest2, "junk tail\n");
}

#[test]
fn missing_events_marker_is_a_structural_error() {
    let input = "Seed: ABC (1)\nNeow Options:\n[o][ Lose your starting Relic Obtain a random boss Relic ]\n[c1]\n[b1]\nTrue map path:\n[m1]\n".to_string() + SEP + "\n";
    match parse_search_results(&input) {
        Ok(_) => panic!("missing marker accepted"),
        Err(Error::StructuralError(section)) => assert_eq!(section, "Events:"),
        Err(_) => panic!("wrong error kind"),
    }
}

#[test]
fn transcript_without_seed_marker_is_empty_not_an_error() {
    let (rest, results) = parse_search_results("no runs in here").expect("noise refused");
    assert_eq!(results.len(), 0);
    assert_eq!(rest, "no runs in here");
}

#[test]
fn trailing_seed_summary_is_consumed() {
    let input = format!("{}{}\n2 seeds found:\n[AAA, BBB] tail", record_body("AAA", "1"), SEP);
    let (rest, results) = parse_search_results(&input).expect("transcript refused");
    assert_eq!(results.len(), 1);
    assert_eq!(rest, " tail");
}

#[test]
fn seed_summary_reader_alone() {
    match parse_seed_list("2 seeds found:\n[AAA, BBB]rest") {
        Ok((rest, found)) => {
            assert_eq!(found, vec!["AAA".to_string(), "BBB".to_string()]);
            assert_eq!(rest, "rest");
        }
        Err(_) => panic!("summary refused"),
    }
    assert!(parse_seed_list("no summary").is_err());
}

#[test]
fn parse_wrapper_orders_records_first() {
    let input = one_record_input();
    let (results, rest) = parse(&input).expect("transcript refused");
    assert_eq!(results.len(), 1);
    assert_eq!(rest, "");
}

#[test]
fn single_record_assembler_reports_remainder() {
    let input = format!("{}{}\nSecond part", record_body("AAA", "1"), SEP);
    match parse_search_result(&input) {
        Ok((rest, rec)) => {
            assert_eq!(rec.seed_string, "AAA");
            assert_eq!(rest, "\nSecond part");
        }
        Err(_) => panic!("record refused"),
    }
}

#[test]
fn search_config_path_joins_home() {
    let home = GameHome {
        home: "C:/game".to_string(),
        java_w: "C:/game/jre/bin/javaw.exe".to_string(),
        mod_the_spire: "C:/workshop/ModTheSpire.jar".to_string(),
    };
    assert_eq!(home.search_config_path(), "C:/game/searchConfig.json");
    let slashed = GameHome {
        home: "C:/game/".to_string(),
        java_w: String::new(),
        mod_the_spire: String::new(),
    };
    assert_eq!(slashed.search_config_path(), "C:/game/searchConfig.json");
}

#[test]
fn search_results_decodes_captured_output() {
    let home = GameHome {
        home: "C:/game".to_string(),
        java_w: String::new(),
        mod_the_spire: String::new(),
    };
    let output = one_record_input();
    let results = home.search_results(&output).expect("output refused");
    assert_eq!(results.len(), 1);
    assert_eq!(results[0].seed, "42");
}
