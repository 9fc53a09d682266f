use anitrack::episode::{
    has_next_episode, has_previous_episode, previous_seed_episode, previous_target_episode,
    replay_seed_episode,
};
use anitrack::label::{episode_labels_match, parse_episode_u32};
use anitrack::order::compare_episode_labels;
use anitrack::progress::{
    episode_ordinal_from_list, episode_progress_position, format_episode_progress_text,
    progress_gauge_parts,
};
use anitrack::title::{parse_title_and_total_eps, sanitize_title_for_search, truncate};
use std::cmp::Ordering;

fn list(labels: &[&str]) -> Vec<String> {
    labels.iter().map(|l| l.to_string()).collect()
}

#[test]
fn one_matches_one_point_zero_and_not_two() {
    assert!(episode_labels_match("1", "1.0"));
    assert!(episode_labels_match("1.0", "1"));
    assert!(!episode_labels_match("1", "2"));
}

#[test]
fn labels_match_within_a_millionth_and_not_at_a_millionth() {
    assert!(episode_labels_match("1", "1.0000009"));
    assert!(episode_labels_match("1.0000001", "1.0000002"));
    assert!(!episode_labels_match("1", "1.000001"));
    assert!(!episode_labels_match("1.000001", "1"));
    assert!(episode_labels_match("0.9999995", "1.0000000"));
    assert!(!episode_labels_match("0.999999", "1"));
    assert!(episode_labels_match("12.5", "12.50"));
    assert!(episode_labels_match(" 7 ", "7"));
    assert!(episode_labels_match("007", "7"));
    assert!(episode_labels_match("+7", "7."));
    assert!(episode_labels_match(".5", "0.5"));
}

#[test]
fn labels_of_any_length_are_compared_exactly() {
    let big = "123456789012345678901234567890";
    assert!(episode_labels_match(big, "123456789012345678901234567890.0"));
    assert!(!episode_labels_match(big, "123456789012345678901234567891"));
    assert!(episode_labels_match(
        "1.00000000000000000000000000001",
        "1.00000000000000000000000000002"
    ));
    assert!(!episode_labels_match("100000000000000000000", "100000000000000000001"));
}

#[test]
fn signs_count_and_zero_has_none() {
    assert!(episode_labels_match("0", "-0"));
    assert!(episode_labels_match("-0.0000004", "0.0000005"));
    assert!(!episode_labels_match("-0.0000005", "0.0000005"));
    assert!(!episode_labels_match("-1", "1"));
    assert!(episode_labels_match("-1.5", "-1.50"));
}

#[test]
fn labels_without_a_number_match_only_as_texts() {
    assert!(episode_labels_match("Special", " Special "));
    assert!(!episode_labels_match("Special", "special"));
    assert!(!episode_labels_match("1", "one"));
    assert!(!episode_labels_match("1e0", "1"));
    assert!(!episode_labels_match("1.2.3", "1.2"));
    assert!(!episode_labels_match(".", "0"));
    assert!(!episode_labels_match("", "0"));
    assert!(episode_labels_match("", "  "));
}

#[test]
fn numbers_come_first_and_in_their_own_order() {
    assert_eq!(compare_episode_labels("2", "10"), Ordering::Less);
    assert_eq!(compare_episode_labels("10", "2"), Ordering::Greater);
    assert_eq!(compare_episode_labels("13", "13.5"), Ordering::Less);
    assert_eq!(compare_episode_labels("1", "1.0"), Ordering::Equal);
    assert_eq!(compare_episode_labels("1.0000001", "1"), Ordering::Greater);
    assert_eq!(compare_episode_labels("-3", "2"), Ordering::Less);
    assert_eq!(compare_episode_labels("-3", "-4"), Ordering::Greater);
    assert_eq!(compare_episode_labels("-0", "0"), Ordering::Equal);
    assert_eq!(compare_episode_labels("99", "OVA"), Ordering::Less);
    assert_eq!(compare_episode_labels("OVA", "99"), Ordering::Greater);
    assert_eq!(compare_episode_labels("OVA", "Special"), Ordering::Less);
    assert_eq!(compare_episode_labels("b", "a"), Ordering::Greater);
    assert_eq!(compare_episode_labels("ab", "abc"), Ordering::Less);
    assert_eq!(compare_episode_labels("x", "x"), Ordering::Equal);
}

#[test]
fn whole_numbers_are_read_up_to_thirty_two_bits() {
    assert_eq!(parse_episode_u32("0"), Some(0));
    assert_eq!(parse_episode_u32(" 12 "), Some(12));
    assert_eq!(parse_episode_u32("+12"), Some(12));
    assert_eq!(parse_episode_u32("007"), Some(7));
    assert_eq!(parse_episode_u32("4294967295"), Some(u32::MAX));
    assert_eq!(parse_episode_u32("4294967296"), None);
    assert_eq!(parse_episode_u32("99999999999999999999999999999999999999999999"), None);
    assert_eq!(parse_episode_u32("-1"), None);
    assert_eq!(parse_episode_u32("1.0"), None);
    assert_eq!(parse_episode_u32("+"), None);
    assert_eq!(parse_episode_u32(""), None);
    assert_eq!(parse_episode_u32("1 2"), None);
}

#[test]
fn the_catalog_decides_what_came_before() {
    let catalog = list(&["0", "1", "2", "13", "13.5"]);
    assert_eq!(previous_target_episode("13.5", Some(&catalog)).as_deref(), Some("13"));
    assert_eq!(previous_target_episode("0", None), None);
    assert_eq!(previous_target_episode("5", None).as_deref(), Some("4"));
    assert_eq!(previous_target_episode("0", Some(&catalog)), None);
    assert_eq!(previous_target_episode("1.0", Some(&catalog)).as_deref(), Some("0"));
    assert_eq!(previous_seed_episode("1", Some(&catalog)), None);
    assert_eq!(previous_seed_episode("2", Some(&catalog)).as_deref(), Some("0"));
    assert_eq!(replay_seed_episode("13", Some(&catalog)).as_deref(), Some("2"));
}

#[test]
fn a_label_that_the_catalog_lacks_falls_back_to_its_number() {
    let catalog = list(&["1", "2", "3"]);
    assert_eq!(previous_target_episode("7", Some(&catalog)).as_deref(), Some("6"));
    assert_eq!(replay_seed_episode("7", Some(&catalog)).as_deref(), Some("6"));
    assert_eq!(previous_seed_episode("7", Some(&catalog)).as_deref(), Some("5"));
    assert!(has_next_episode("7", Some(9), Some(&catalog)));
    assert!(!has_next_episode("9", Some(9), Some(&catalog)));
}

#[test]
fn the_last_entry_of_the_catalog_has_no_next_whatever_the_title_states() {
    let mut catalog = vec!["0".to_string()];
    for ep in 1..=13 {
        catalog.push(ep.to_string());
    }
    catalog.push("13.5".to_string());
    for ep in 14..=25 {
        catalog.push(ep.to_string());
    }
    assert!(!has_next_episode("25", Some(27), Some(&catalog)));
    assert!(!has_next_episode("25.0", None, Some(&catalog)));
    assert!(has_next_episode("13.5", Some(27), Some(&catalog)));
}

#[test]
fn without_a_catalog_and_without_a_count_a_next_episode_is_assumed() {
    assert!(has_next_episode("25", None, None));
    assert!(has_next_episode("Special", Some(3), None));
    assert!(has_next_episode("2.5", Some(3), None));
    assert!(has_next_episode("2", Some(3), None));
    assert!(!has_next_episode("3", Some(3), None));
    assert!(!has_next_episode("4", Some(3), None));
}

#[test]
fn numbers_step_back_to_the_whole_number_below() {
    assert_eq!(previous_target_episode("13.5", None).as_deref(), Some("13"));
    assert_eq!(previous_target_episode("0.5", None).as_deref(), Some("0"));
    assert_eq!(previous_target_episode("1.0", None).as_deref(), Some("0"));
    assert_eq!(previous_target_episode("1.00", None).as_deref(), Some("0"));
    assert_eq!(previous_target_episode("010", None).as_deref(), Some("9"));
    assert_eq!(previous_target_episode("100", None).as_deref(), Some("99"));
    assert_eq!(previous_target_episode("1000", None).as_deref(), Some("999"));
    assert_eq!(previous_target_episode(".5", None).as_deref(), Some("0"));
    assert_eq!(previous_target_episode("0.0", None), None);
    assert_eq!(previous_target_episode("-2", None), None);
    assert_eq!(previous_target_episode("-0.5", None), None);
    assert_eq!(previous_target_episode("Special", None), None);
    assert_eq!(
        previous_target_episode("100000000000000000000", None).as_deref(),
        Some("99999999999999999999")
    );
    assert_eq!(
        previous_target_episode("100000000000000000000.25", None).as_deref(),
        Some("100000000000000000000")
    );
}

#[test]
fn a_seed_exists_only_above_one() {
    assert_eq!(previous_seed_episode("3", None).as_deref(), Some("1"));
    assert_eq!(previous_seed_episode("2", None), None);
    assert_eq!(previous_seed_episode("2.5", None).as_deref(), Some("1"));
    assert_eq!(previous_seed_episode("1.5", None), None);
    assert_eq!(previous_seed_episode("12", None).as_deref(), Some("10"));
    assert_eq!(previous_seed_episode("0", None), None);
    assert_eq!(replay_seed_episode("2", None).as_deref(), Some("1"));
    assert_eq!(replay_seed_episode("1", None), None);
    assert_eq!(replay_seed_episode("0", None), None);
    assert_eq!(replay_seed_episode("2.5", None), None);
    assert_eq!(replay_seed_episode("4294967295", None).as_deref(), Some("4294967294"));
    assert!(has_previous_episode("0.5", None));
    assert!(!has_previous_episode("x", None));
}

#[test]
fn titles_give_their_name_and_their_count() {
    assert_eq!(
        parse_title_and_total_eps("  Death Note (37 episodes)  "),
        ("Death Note".to_string(), Some(37))
    );
    assert_eq!(
        parse_title_and_total_eps("A (B) ( 12  episodes )"),
        ("A (B)".to_string(), Some(12))
    );
    assert_eq!(parse_title_and_total_eps("Plain"), ("Plain".to_string(), None));
    assert_eq!(
        parse_title_and_total_eps("Show (12 episode)"),
        ("Show (12 episode)".to_string(), None)
    );
    assert_eq!(
        parse_title_and_total_eps("Show (x episodes)"),
        ("Show (x episodes)".to_string(), None)
    );
    assert_eq!(
        parse_title_and_total_eps("Show (12 episodes) extra"),
        ("Show (12 episodes) extra".to_string(), None)
    );
    assert_eq!(
        parse_title_and_total_eps("Show (4294967296 episodes)"),
        ("Show (4294967296 episodes)".to_string(), None)
    );
    assert_eq!(parse_title_and_total_eps("(1 episodes)"), ("".to_string(), Some(1)));
    assert_eq!(parse_title_and_total_eps("Show ()"), ("Show ()".to_string(), None));
    assert_eq!(parse_title_and_total_eps(""), ("".to_string(), None));
}

#[test]
fn titles_are_cleaned_for_the_search() {
    assert_eq!(sanitize_title_for_search(" Death Note (37 episodes) "), "Death Note");
    assert_eq!(sanitize_title_for_search("Show (all episodes so far)"), "Show");
    assert_eq!(sanitize_title_for_search("Show (2019)"), "Show (2019)");
    assert_eq!(sanitize_title_for_search("Show (12 episodes) x"), "Show (12 episodes) x");
    assert_eq!(sanitize_title_for_search("episodes"), "episodes");
}

#[test]
fn long_texts_are_cut_with_three_dots() {
    assert_eq!(truncate("abcdef", 6), "abcdef");
    assert_eq!(truncate("abcdefg", 6), "abc...");
    assert_eq!(truncate("abcdefg", 3), "...");
    assert_eq!(truncate("abcdefg", 2), "...");
    assert_eq!(truncate("abcdefg", 0), "...");
    assert_eq!(truncate("", 0), "");
    assert_eq!(truncate("äöüßäöü", 5), "äö...");
}

#[test]
fn progress_is_counted_in_the_catalog_and_capped_by_the_total() {
    let catalog = list(&["0", "1", "2", "2.5", "3"]);
    assert_eq!(episode_ordinal_from_list("2.5", &catalog), Some(4));
    assert_eq!(episode_ordinal_from_list("2.50", &catalog), Some(4));
    assert_eq!(episode_ordinal_from_list("9", &catalog), None);
    assert_eq!(episode_progress_position("3", 4, Some(&catalog)), Some(4));
    assert_eq!(episode_progress_position("3", 9, Some(&catalog)), Some(5));
    assert_eq!(episode_progress_position("9", 4, Some(&catalog)), Some(4));
    assert_eq!(episode_progress_position("3", 0, Some(&catalog)), None);
    assert_eq!(episode_progress_position("x", 4, None), None);
    assert_eq!(episode_progress_position("2", 4, None), Some(2));
}

#[test]
fn the_progress_text_names_the_label_where_it_differs_from_the_place() {
    let catalog = list(&["0", "1", "2"]);
    assert_eq!(format_episode_progress_text("1", 3, Some(&catalog)), "2 of 3 (episode 1)");
    assert_eq!(format_episode_progress_text("2", 3, None), "2 of 3");
    assert_eq!(format_episode_progress_text("7", 3, None), "3 of 3 (episode 7)");
    assert_eq!(format_episode_progress_text("OVA", 3, None), "OVA of 3");
    assert_eq!(format_episode_progress_text("2", 0, None), "2 of 0");
}

#[test]
fn the_gauge_shows_the_place_over_the_total() {
    let catalog = list(&["0", "1", "2"]);
    let (shown, label) = progress_gauge_parts("1", 3, Some(&catalog)).expect("a place");
    assert_eq!((shown, label.as_str()), (2, "2/3"));
    let ratio = shown as f64 / 3.0;
    assert!((ratio - 2.0 / 3.0).abs() < 0.000_001);
    assert_eq!(progress_gauge_parts("25", 27, None), Some((25, "25/27".to_string())));
    assert_eq!(progress_gauge_parts("x", 27, None), None);
    assert_eq!(progress_gauge_parts("1", 0, None), None);
}

#[test]
fn turning_two_labels_round_turns_their_order() {
    let labels = ["1", "1.0", "2", "-3", "OVA", "Extra", "", "10", "ova", "1.50"];
    for a in labels {
        for b in labels {
            let there = compare_episode_labels(a, b);
            let back = compare_episode_labels(b, a);
            assert_eq!(there, back.reverse(), "{a:?} against {b:?}");
        }
    }
}

#[test]
fn sorted_labels_keep_every_label_and_stand_in_order() {
    let given = list(&["7", "OVA", "3", "3.0", "Extra", "12", "0.5", "3", "special"]);
    let sorted = anitrack::catalog::sort_episode_labels(&given);
    assert_eq!(sorted.len(), given.len());
    for pair in sorted.windows(2) {
        assert_ne!(compare_episode_labels(&pair[0], &pair[1]), Ordering::Greater);
    }
    let mut left = given.clone();
    let mut right = sorted.clone();
    left.sort();
    right.sort();
    assert_eq!(left, right);
    assert_eq!(
        sorted,
        list(&["0.5", "3", "3.0", "3", "7", "12", "Extra", "OVA", "special"])
    );
}
