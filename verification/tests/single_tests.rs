use anitrack::catalog::parse_mode_episode_labels;
use anitrack::clock::{format_last_seen_display, format_last_seen_display_tui};
use anitrack::db::SeenEntry;
use anitrack::playback::{build_replay_plan, ReplayPlan};
use anitrack::search::parse_search_result_entries;
use chrono::{DateTime, Local};

#[test]
fn replay_plan_uses_select_nth_for_episode_zero_fallback() {
    let item = SeenEntry {
        ani_id: "show-0".to_string(),
        title: "Replay Zero Show (2 episodes)".to_string(),
        last_episode: "0".to_string(),
        last_seen_at: "2026-02-27T00:00:00+00:00".to_string(),
    };
    let episodes = vec!["0".to_string(), "1".to_string(), "2".to_string()];

    let plan = build_replay_plan(&item, Some(&episodes), |_| Some(4));
    assert_eq!(
        plan,
        ReplayPlan::Episode {
            episode: "0".to_string(),
            select_nth: Some(4),
        }
    );
}

#[test]
fn replay_plan_uses_continue_seed_when_available() {
    let item = SeenEntry {
        ani_id: "show-5".to_string(),
        title: "Replay Normal Show (12 episodes)".to_string(),
        last_episode: "5".to_string(),
        last_seen_at: "2026-02-27T00:00:00+00:00".to_string(),
    };

    let plan = build_replay_plan(&item, None, |_| Some(99));
    assert_eq!(
        plan,
        ReplayPlan::Continue {
            seed_episode: "4".to_string(),
        }
    );
}

#[test]
fn tests_format_last_seen_display_parses_rfc3339_timestamp() {
    let raw = "2026-02-25T18:27:06.100701256+00:00";
    let formatted = format_last_seen_display(raw);
    let expected = DateTime::parse_from_rfc3339(raw)
        .expect("timestamp should parse")
        .with_timezone(&Local)
        .format("%Y-%m-%d %H:%M %:z")
        .to_string();
    assert_eq!(formatted, expected);
}

#[test]
fn format_last_seen_display_tui_parses_rfc3339_timestamp_without_offset() {
    let raw = "2026-02-25T18:27:06.100701256+00:00";
    let formatted = format_last_seen_display_tui(raw);
    let expected = DateTime::parse_from_rfc3339(raw)
        .expect("timestamp should parse")
        .with_timezone(&Local)
        .format("%Y-%m-%d %H:%M")
        .to_string();
    assert_eq!(formatted, expected);
}

#[test]
fn tests_format_last_seen_display_keeps_raw_when_invalid() {
    let raw = "not-a-timestamp";
    assert_eq!(format_last_seen_display(raw), raw);
}

#[test]
fn app_format_last_seen_display_keeps_raw_when_invalid() {
    let raw = "not-a-timestamp";
    assert_eq!(format_last_seen_display(raw), raw);
}

#[test]
fn format_last_seen_display_tui_keeps_raw_when_invalid() {
    let raw = "not-a-timestamp";
    assert_eq!(format_last_seen_display_tui(raw), raw);
}

#[test]
fn parse_mode_episode_labels_extracts_string_and_numeric_values() {
    let payload = r#"{"data":{"show":{"availableEpisodesDetail":{"sub":[ "0","1",null,"2" ]}}}}"#;
    let episodes = parse_mode_episode_labels(payload, "sub").expect("sub episodes should parse");
    assert_eq!(episodes, vec!["0", "1", "2"]);
}

#[test]
fn parse_search_result_entries_handles_escaped_titles() {
    let raw = r#"{"data":{"shows":{"edges":[{"_id":"id-1","name":"Boku no Hero Academia: Heroes Rising \"Special\""}]}}}"#;
    let entries = parse_search_result_entries(raw);
    assert_eq!(entries.len(), 1);
    assert_eq!(entries[0].id, "id-1");
    assert_eq!(
        entries[0].title,
        "Boku no Hero Academia: Heroes Rising \"Special\""
    );
}

#[test]
fn parse_search_result_entries_returns_empty_on_invalid_json() {
    let entries = parse_search_result_entries("{not json");
    assert!(entries.is_empty());
}
