use anitrack::episode::{
    has_next_episode, has_previous_episode, previous_seed_episode, previous_target_episode,
    replay_seed_episode,
};
use anitrack::progress::{episode_ordinal_from_list, format_episode_progress_text};

fn tests_sample_catalog() -> Vec<String> {
    let mut episodes = vec!["0".to_string()];
    for ep in 1..=13 {
        episodes.push(ep.to_string());
    }
    episodes.push("13.5".to_string());
    for ep in 14..=25 {
        episodes.push(ep.to_string());
    }
    episodes
}

#[test]
fn tests_episode_ordinal_from_list_counts_zero_and_decimal_entries() {
    let episodes = tests_sample_catalog();

    let ordinal =
        episode_ordinal_from_list("25", &episodes).expect("episode should be found in list");
    assert_eq!(ordinal, 27);
}

#[test]
fn tests_format_episode_progress_text_uses_ordinal_and_keeps_raw_label_when_needed() {
    let episodes = tests_sample_catalog();

    let text = format_episode_progress_text("25", 27, Some(&episodes));
    assert_eq!(text, "27 of 27 (episode 25)");
}

#[test]
fn tests_format_episode_progress_text_uses_plain_numeric_when_ordinal_matches() {
    let text = format_episode_progress_text("12", 24, None);
    assert_eq!(text, "12 of 24");
}

#[test]
fn tests_replay_seed_episode_uses_previous_episode_from_list() {
    let episodes = vec![
        "0".to_string(),
        "1".to_string(),
        "2".to_string(),
        "13".to_string(),
        "13.5".to_string(),
    ];

    let seed = replay_seed_episode("13.5", Some(&episodes));
    assert_eq!(seed.as_deref(), Some("13"));
}

#[test]
fn tests_replay_seed_episode_none_for_first_episode_in_list() {
    let episodes = vec!["0".to_string(), "1".to_string(), "2".to_string()];
    let seed = replay_seed_episode("0", Some(&episodes));
    assert!(seed.is_none());
}

#[test]
fn tests_replay_seed_episode_falls_back_to_numeric_when_list_missing() {
    let seed = replay_seed_episode("5", None);
    assert_eq!(seed.as_deref(), Some("4"));

    let seed_first = replay_seed_episode("1", None);
    assert!(seed_first.is_none());
}

#[test]
fn tests_previous_target_episode_uses_episode_list_for_non_linear_numbering() {
    let episodes = vec![
        "0".to_string(),
        "1".to_string(),
        "2".to_string(),
        "13".to_string(),
        "13.5".to_string(),
    ];
    let previous = previous_target_episode("13.5", Some(&episodes));
    assert_eq!(previous.as_deref(), Some("13"));
}

#[test]
fn tests_previous_seed_episode_steps_back_two_positions_when_possible() {
    let episodes = vec![
        "0".to_string(),
        "1".to_string(),
        "2".to_string(),
        "13".to_string(),
        "13.5".to_string(),
    ];
    let seed = previous_seed_episode("13.5", Some(&episodes));
    assert_eq!(seed.as_deref(), Some("2"));
}

#[test]
fn tests_previous_episode_helpers_fall_back_to_numeric() {
    assert_eq!(previous_target_episode("5", None).as_deref(), Some("4"));
    assert_eq!(previous_seed_episode("5", None).as_deref(), Some("3"));
    assert_eq!(previous_target_episode("1", None).as_deref(), Some("0"));
    assert_eq!(previous_target_episode("0", None).as_deref(), None);
    assert_eq!(previous_seed_episode("2", None).as_deref(), None);
}

#[test]
fn tests_has_previous_episode_handles_decimal_and_zero_when_list_missing() {
    assert!(has_previous_episode("13.5", None));
    assert!(has_previous_episode("1", None));
    assert!(!has_previous_episode("0", None));
}

#[test]
fn tests_previous_episode_helpers_support_decimal_fallback_without_list() {
    assert_eq!(previous_target_episode("15.5", None).as_deref(), Some("15"));
    assert_eq!(previous_seed_episode("15.5", None).as_deref(), Some("14"));
}

#[test]
fn tests_has_next_episode_uses_episode_list_for_non_linear_numbering() {
    let episodes = tests_sample_catalog();

    assert!(!has_next_episode("25", Some(27), Some(&episodes)));
    assert!(has_next_episode("24", Some(27), Some(&episodes)));
}

#[test]
fn tests_has_next_episode_falls_back_to_numeric_when_list_missing() {
    assert!(has_next_episode("25", Some(27), None));
    assert!(!has_next_episode("27", Some(27), None));
}
