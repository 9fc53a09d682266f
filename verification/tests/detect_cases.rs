use anitrack::detect::{
    added_entries, conclude, detect, detect_changed_latest, detect_latest_added_entry,
    detect_latest_watch_event, history_file_touched, same_entries, Detection, HistFileSig,
};
use anitrack::index::TextMap;
use anitrack::journal::{
    detect_latest_watch_event_from_logs, journal_window, normalize_log_key, parse_short_unix_ts_ns,
    parse_journal_ani_cli_line,
};
use anitrack::ledger::{read_hist_map, HistEntry, LedgerFile};

fn entry(ep: &str, id: &str, title: &str) -> HistEntry {
    HistEntry { ep: ep.to_string(), id: id.to_string(), title: title.to_string() }
}

fn map_of(entries: &[HistEntry]) -> TextMap<HistEntry> {
    let mut map = TextMap::new();
    for e in entries {
        map.insert(e.id.clone(), e.clone());
    }
    map
}

#[test]
fn a_new_show_in_an_empty_history_is_detected() {
    let before: Vec<HistEntry> = Vec::new();
    let after = vec![entry("1", "id", "Show")];
    let found = detect_latest_watch_event(&map_of(&before), &before, &after);
    assert_eq!(found, Some(entry("1", "id", "Show")));
}

#[test]
fn the_latest_change_wins_over_entries_of_other_shows_in_between() {
    let before = vec![entry("1", "id", "Show")];
    let after = vec![entry("1", "id", "Show"), entry("0", "other", "Other"), entry("2", "id", "Show")];
    let found = detect_changed_latest(&map_of(&before), &after);
    assert_eq!(found, Some(entry("2", "id", "Show")));
    let by_addition = detect_latest_watch_event(&map_of(&before), &before, &after);
    assert_eq!(by_addition, Some(entry("2", "id", "Show")));
}

#[test]
fn the_same_history_twice_shows_nothing() {
    let history = vec![entry("1", "a", "A"), entry("2", "b", "B"), entry("3", "a", "A")];
    let found = detect_latest_watch_event(&map_of(&history), &history, &history);
    assert_eq!(found, None);
    assert!(added_entries(&history, &history).is_empty());
    let sig = Some(HistFileSig { len: 9, modified_ns: 4 });
    assert!(!history_file_touched(sig, sig));
    assert!(!history_file_touched(None, None));
}

#[test]
fn a_file_that_appears_or_goes_counts_as_touched() {
    let sig = Some(HistFileSig { len: 9, modified_ns: 4 });
    assert!(history_file_touched(None, sig));
    assert!(history_file_touched(sig, None));
    assert!(history_file_touched(sig, Some(HistFileSig { len: 10, modified_ns: 4 })));
}

#[test]
fn an_exact_duplicate_that_is_appended_is_still_an_event() {
    let before = vec![entry("0", "id-0", "Zero"), entry("4", "id-4", "Four")];
    let mut after = before.clone();
    after.push(entry("0", "id-0", "Zero"));
    let found = detect_latest_watch_event(&map_of(&before), &before, &after);
    assert_eq!(found, Some(entry("0", "id-0", "Zero")));
    assert_eq!(added_entries(&before, &after), vec![entry("0", "id-0", "Zero")]);
}

#[test]
fn of_the_added_entries_the_last_one_that_is_news_is_taken() {
    let before = vec![entry("1", "a", "A")];
    let after = vec![
        entry("1", "a", "A"),
        entry("2", "a", "A"),
        entry("1", "a", "A"),
    ];
    let found = detect_latest_added_entry(&map_of(&before), &before, &after);
    assert_eq!(found, Some(entry("2", "a", "A")));
}

#[test]
fn nothing_added_gives_nothing_by_addition() {
    let before = vec![entry("1", "a", "A"), entry("2", "b", "B")];
    let after = vec![entry("1", "a", "A")];
    assert_eq!(detect_latest_added_entry(&map_of(&before), &before, &after), None);
}

#[test]
fn a_file_rewritten_in_place_is_read_from_its_end() {
    let before = vec![entry("1", "a", "A"), entry("2", "b", "B")];
    let rewritten = vec![entry("1", "a", "A"), entry("2", "b", "B renamed")];
    let map = map_of(&before);
    let found = detect_changed_latest(&map, &rewritten);
    assert_eq!(found, Some(entry("2", "b", "B renamed")));
}

#[test]
fn an_older_line_of_a_show_is_not_looked_at_twice() {
    let before = vec![entry("2", "a", "A")];
    let after = vec![entry("1", "a", "A"), entry("2", "a", "A")];
    assert_eq!(detect_changed_latest(&map_of(&before), &after), None);
}

#[test]
fn sequences_of_entries_are_compared_in_order() {
    let a = vec![entry("1", "a", "A"), entry("2", "b", "B")];
    let b = vec![entry("2", "b", "B"), entry("1", "a", "A")];
    assert!(same_entries(&a, &a));
    assert!(!same_entries(&a, &b));
    assert!(!same_entries(&a, &a[..1]));
}

#[test]
fn the_conclusion_tells_an_ambiguous_change_from_no_change() {
    let text = |s: &str, sig: u64| {
        read_hist_map(
            "p",
            LedgerFile::Text(s.to_string()),
            Some(HistFileSig { len: sig, modified_ns: 1 }),
        )
    };
    let before = text("1\ta\tA\n2\tb\tB\n", 16);
    let same = text("1\ta\tA\n2\tb\tB\n", 16);
    let shorter = text("1\ta\tA\n", 8);
    let touched_only = text("1\ta\tA\n2\tb\tB\n", 17);

    assert_eq!(detect(&before, &same), None);
    assert!(matches!(conclude(&before, &same, None), Detection::Unchanged));
    assert_eq!(detect(&before, &shorter), None);
    assert!(matches!(conclude(&before, &shorter, None), Detection::Ambiguous));
    assert!(matches!(conclude(&before, &touched_only, None), Detection::Unchanged));
    let event = Some(entry("9", "z", "Z"));
    match conclude(&before, &same, event) {
        Detection::Watched(e) => assert_eq!(e, entry("9", "z", "Z")),
        other => panic!("unexpected conclusion {other:?}"),
    }
}

#[test]
fn timestamps_are_read_to_the_nanosecond() {
    assert_eq!(parse_short_unix_ts_ns("12"), Some(12_000_000_000));
    assert_eq!(parse_short_unix_ts_ns("12."), Some(12_000_000_000));
    assert_eq!(parse_short_unix_ts_ns("12.5"), Some(12_500_000_000));
    assert_eq!(parse_short_unix_ts_ns("12.000000001"), Some(12_000_000_001));
    assert_eq!(parse_short_unix_ts_ns("12.1234567899"), Some(12_123_456_789));
    assert_eq!(parse_short_unix_ts_ns("12.5x9"), Some(12_500_000_000));
    assert_eq!(parse_short_unix_ts_ns("12.x"), Some(12_000_000_000));
    assert_eq!(parse_short_unix_ts_ns("+7.25"), Some(7_250_000_000));
    assert_eq!(parse_short_unix_ts_ns(""), None);
    assert_eq!(parse_short_unix_ts_ns(".5"), None);
    assert_eq!(parse_short_unix_ts_ns("-1"), None);
    assert_eq!(parse_short_unix_ts_ns("1e3"), None);
    assert_eq!(
        parse_short_unix_ts_ns("340282366920938463463374607431768211455.9"),
        Some(u128::MAX)
    );
    assert_eq!(parse_short_unix_ts_ns("340282366920938463463374607431768211456"), None);
}

#[test]
fn a_log_line_needs_a_timestamp_a_space_and_a_colon() {
    assert_eq!(
        parse_journal_ani_cli_line("5.5 host ani-cli[1]:   spaced  out  "),
        Some((5_500_000_000, "spaced  out".to_string()))
    );
    assert_eq!(
        parse_journal_ani_cli_line("5 host tag: a: b"),
        Some((5_000_000_000, "a: b".to_string()))
    );
    assert_eq!(parse_journal_ani_cli_line("5 host tag:no space"), None);
    assert_eq!(parse_journal_ani_cli_line("nospace"), None);
    assert_eq!(parse_journal_ani_cli_line("x host tag: msg"), None);
}

#[test]
fn keys_drop_punctuation_and_keep_case() {
    assert_eq!(normalize_log_key("  Re:Zero -  Starting!  Life  "), "ReZero Starting Life");
    assert_eq!(normalize_log_key("a_b-c"), "abc");
    assert_ne!(normalize_log_key("Naruto"), normalize_log_key("naruto"));
    assert_eq!(normalize_log_key("¡Hola!"), "¡Hola");
}

#[test]
fn the_window_is_asked_for_in_whole_seconds_with_five_to_spare() {
    assert_eq!(journal_window(12_999_999_999, 20_000_000_001), (12, 25));
    assert_eq!(journal_window(0, 0), (0, 5));
}

#[test]
fn the_newest_log_line_in_the_window_that_names_an_entry_decides() {
    let after = vec![
        entry("1", "id-1", "Death Note (37 episodes)"),
        entry("0", "id-2", "Shingeki no Kyojin (27 episodes)"),
    ];
    let journal = "\
9.0 host ani-cli[1]: Death Note 1
10.0 host ani-cli[1]: Death Note 1
11.5 host ani-cli[1]: Shingeki no Kyojin 0
12.0 host ani-cli[1]: Unknown Show 3
26.0 host ani-cli[1]: Death Note 1
garbage
";
    let start = 10_000_000_000;
    let end = 20_000_000_000;
    let found = detect_latest_watch_event_from_logs(start, end, &after, Some(journal));
    assert_eq!(found.map(|e| e.id), Some("id-2".to_string()));

    let late = detect_latest_watch_event_from_logs(start, 21_000_000_000, &after, Some(journal));
    assert_eq!(late.map(|e| e.id), Some("id-1".to_string()));

    let early = detect_latest_watch_event_from_logs(0, 4_000_000_000, &after, Some(journal));
    assert_eq!(early.map(|e| e.id), Some("id-1".to_string()));

    let narrow = detect_latest_watch_event_from_logs(12_000_000_000, 13_000_000_000, &after, Some(journal));
    assert_eq!(narrow, None);
    assert_eq!(detect_latest_watch_event_from_logs(start, end, &after, None), None);
    assert_eq!(detect_latest_watch_event_from_logs(start, end, &[], Some(journal)), None);
}
