use anitrack::journal::{ani_cli_log_key, detect_log_matched_entry, parse_journal_ani_cli_line};
use anitrack::ledger::HistEntry;
use anitrack::search::{
    find_select_nth_index_by_id, find_select_nth_index_by_title, json_escape,
    parse_search_result_entries, SearchResultEntry,
};
use anitrack::tui::TuiAction;

#[test]
fn tests_parse_journal_ani_cli_line_extracts_timestamp_and_message() {
    let line = "1772039324.974245 fedora ani-cli[407433]: Shingeki no Kyojin 0";
    let (ts_ns, msg) = parse_journal_ani_cli_line(line).expect("line should parse");
    assert_eq!(msg, "Shingeki no Kyojin 0");
    assert_eq!(ts_ns, 1_772_039_324_974_245_000);
}

#[test]
fn tests_ani_cli_log_key_matches_ani_cli_logger_format() {
    let key = ani_cli_log_key("Death Note: Rewrite (1 episodes)", "1");
    assert_eq!(key, "Death Note Rewrite 1");
}

#[test]
fn tests_ani_cli_log_key_normalizes_missing_space_before_parentheses() {
    let key = ani_cli_log_key("Naruto(220 episodes)", "1");
    assert_eq!(key, "Naruto 1");
}

#[test]
fn tests_detect_log_matched_entry_handles_episode_zero() {
    let after_ordered = vec![
        HistEntry {
            ep: "1".to_string(),
            id: "id-1".to_string(),
            title: "Death Note (37 episodes)".to_string(),
        },
        HistEntry {
            ep: "0".to_string(),
            id: "id-2".to_string(),
            title: "Shingeki no Kyojin (27 episodes)".to_string(),
        },
    ];

    let matched = detect_log_matched_entry("Shingeki no Kyojin 0", &after_ordered)
        .expect("message should map to history entry");
    assert_eq!(matched.id, "id-2");
    assert_eq!(matched.ep, "0");
}

#[test]
fn tests_parse_search_result_entries_extracts_ids_in_order() {
    let raw =
        r#"{"data":{"shows":{"edges":[{"_id":"id-1","name":"A"},{"_id":"id-2","name":"B"}]}}}"#;
    let entries = parse_search_result_entries(raw);
    assert_eq!(entries.len(), 2);
    assert_eq!(entries[0].id, "id-1");
    assert_eq!(entries[0].title, "A");
    assert_eq!(entries[1].id, "id-2");
    assert_eq!(entries[1].title, "B");
}

#[test]
fn tests_find_select_nth_index_by_id_returns_one_based_position() {
    let entries = vec![
        SearchResultEntry {
            id: "id-1".to_string(),
            title: "A".to_string(),
        },
        SearchResultEntry {
            id: "id-2".to_string(),
            title: "B".to_string(),
        },
        SearchResultEntry {
            id: "id-3".to_string(),
            title: "C".to_string(),
        },
    ];
    assert_eq!(find_select_nth_index_by_id(&entries, "id-2"), Some(2));
    assert_eq!(find_select_nth_index_by_id(&entries, "id-missing"), None);
}

#[test]
fn tests_find_select_nth_index_by_title_matches_normalized_title() {
    let entries = vec![
        SearchResultEntry {
            id: "id-1".to_string(),
            title: "Shingeki no Kyojin".to_string(),
        },
        SearchResultEntry {
            id: "id-2".to_string(),
            title: "Death Note".to_string(),
        },
    ];
    assert_eq!(
        find_select_nth_index_by_title(&entries, "Shingeki no Kyojin (27 episodes)"),
        Some(1)
    );
}

#[test]
fn tests_json_escape_handles_quotes_backslashes_and_controls() {
    let escaped = json_escape("A\"B\\C\n");
    assert_eq!(escaped, "A\\\"B\\\\C\\n");
}

#[test]
fn tests_tui_action_horizontal_navigation_respects_edges() {
    assert_eq!(TuiAction::Next.move_left(), TuiAction::Next);
    assert_eq!(TuiAction::Next.move_right(), TuiAction::Replay);
    assert_eq!(TuiAction::Replay.move_right(), TuiAction::Previous);
    assert_eq!(TuiAction::Previous.move_right(), TuiAction::Select);
    assert_eq!(TuiAction::Select.move_right(), TuiAction::Select);
    assert_eq!(TuiAction::Select.move_left(), TuiAction::Previous);
}
