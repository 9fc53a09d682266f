use anitrack::detect::{
    added_entries, detect_changed_latest, detect_latest_watch_event, history_file_touched,
    HistFileSig,
};
use anitrack::index::TextMap;
use anitrack::ledger::{parse_hist_line, parse_hist_map, HistEntry};

#[test]
fn app_parse_hist_line_accepts_valid_format() {
    let entry = parse_hist_line("12\tshow-123\tShow Title").expect("line should parse");
    assert_eq!(entry.ep, "12");
    assert_eq!(entry.id, "show-123");
    assert_eq!(entry.title, "Show Title");
}

#[test]
fn app_parse_hist_line_accepts_space_separated_format_with_episode_zero() {
    let entry = parse_hist_line("0 show-0 Episode Zero Title").expect("line should parse");
    assert_eq!(entry.ep, "0");
    assert_eq!(entry.id, "show-0");
    assert_eq!(entry.title, "Episode Zero Title");
}

#[test]
fn app_parse_hist_line_preserves_decimal_episode_value() {
    let entry = parse_hist_line("13.5\tshow-135\tMid-season OVA").expect("line should parse");
    assert_eq!(entry.ep, "13.5");
    assert_eq!(entry.id, "show-135");
}

#[test]
fn app_parse_hist_map_ignores_malformed_lines() {
    let raw = "1\tid-1\tShow One\nbadline\n\tid-2\tMissing episode\n2\tid-2\tShow Two\n";
    let (parsed, ordered, skipped) = parse_hist_map(raw);
    assert_eq!(parsed.len(), 2);
    assert_eq!(ordered.len(), 2);
    assert_eq!(skipped, 2);
    assert_eq!(
        parsed.get("id-2").map(|entry| entry.title.as_str()),
        Some("Show Two")
    );
}

#[test]
fn app_detect_changed_latest_returns_most_recent_changed_entry() {
    let mut before = TextMap::new();
    before.insert(
        "id-1".to_string(),
        HistEntry {
            ep: "1".to_string(),
            id: "id-1".to_string(),
            title: "Show One".to_string(),
        },
    );

    let after_ordered = vec![
        HistEntry {
            ep: "1".to_string(),
            id: "id-1".to_string(),
            title: "Show One".to_string(),
        },
        HistEntry {
            ep: "0".to_string(),
            id: "id-2".to_string(),
            title: "Show Two".to_string(),
        },
        HistEntry {
            ep: "2".to_string(),
            id: "id-1".to_string(),
            title: "Show One".to_string(),
        },
    ];

    let changed = detect_changed_latest(&before, &after_ordered)
        .expect("entry should be detected as changed");
    assert_eq!(changed.id, "id-1");
    assert_eq!(changed.ep, "2");
}

#[test]
fn app_detect_changed_latest_handles_episode_zero() {
    let before = TextMap::new();
    let after_ordered = vec![HistEntry {
        ep: "0".to_string(),
        id: "id-0".to_string(),
        title: "Episode Zero Show".to_string(),
    }];

    let changed = detect_changed_latest(&before, &after_ordered)
        .expect("episode 0 entry should be treated as a valid change");
    assert_eq!(changed.id, "id-0");
    assert_eq!(changed.ep, "0");
}

#[test]
fn app_detect_latest_watch_event_accepts_appended_duplicate_episode_zero() {
    let before_entry = HistEntry {
        ep: "0".to_string(),
        id: "id-0".to_string(),
        title: "Episode Zero Show".to_string(),
    };

    let mut before_map = TextMap::new();
    before_map.insert(before_entry.id.clone(), before_entry.clone());

    let before_ordered = vec![before_entry.clone()];
    let after_ordered = vec![before_entry.clone(), before_entry.clone()];

    let changed = detect_latest_watch_event(&before_map, &before_ordered, &after_ordered)
        .expect("appended duplicate entry should count as a watch event");
    assert_eq!(changed.id, "id-0");
    assert_eq!(changed.ep, "0");
}

#[test]
fn app_detect_latest_watch_event_prefers_new_added_entry_over_unchanged_trailing_line() {
    let before_a = HistEntry {
        ep: "2".to_string(),
        id: "id-a".to_string(),
        title: "Show A".to_string(),
    };
    let before_b = HistEntry {
        ep: "7".to_string(),
        id: "id-b".to_string(),
        title: "Show B".to_string(),
    };
    let mut before_map = TextMap::new();
    before_map.insert(before_a.id.clone(), before_a.clone());
    before_map.insert(before_b.id.clone(), before_b.clone());

    let before_ordered = vec![before_a.clone(), before_b.clone()];
    let after_ordered = vec![
        before_a.clone(),
        before_b.clone(),
        HistEntry {
            ep: "0".to_string(),
            id: "id-new".to_string(),
            title: "Brand New Show".to_string(),
        },
        before_b.clone(),
    ];

    let changed = detect_latest_watch_event(&before_map, &before_ordered, &after_ordered)
        .expect("new appended entry should be selected");
    assert_eq!(changed.id, "id-new");
    assert_eq!(changed.ep, "0");
}

#[test]
fn app_detect_latest_watch_event_returns_none_when_content_is_unchanged() {
    let before_entry = HistEntry {
        ep: "1".to_string(),
        id: "id-existing".to_string(),
        title: "Existing Show".to_string(),
    };
    let mut before_map = TextMap::new();
    before_map.insert(before_entry.id.clone(), before_entry.clone());

    let before_ordered = vec![before_entry.clone()];
    let after_ordered = vec![before_entry];

    let changed = detect_latest_watch_event(&before_map, &before_ordered, &after_ordered);
    assert!(changed.is_none());
}

#[test]
fn app_history_file_touched_detects_metadata_change() {
    let before = Some(HistFileSig {
        len: 100,
        modified_ns: 1000,
    });
    let after = Some(HistFileSig {
        len: 100,
        modified_ns: 1001,
    });
    assert!(history_file_touched(before, after));
}

#[test]
fn app_history_file_touched_ignores_same_metadata() {
    let sig = Some(HistFileSig {
        len: 100,
        modified_ns: 1000,
    });
    assert!(!history_file_touched(sig, sig));
}

#[test]
fn app_added_entries_detects_inserted_and_duplicate_new_occurrences() {
    let before = vec![
        HistEntry {
            ep: "1".to_string(),
            id: "a".to_string(),
            title: "A".to_string(),
        },
        HistEntry {
            ep: "2".to_string(),
            id: "b".to_string(),
            title: "B".to_string(),
        },
    ];
    let after = vec![
        before[0].clone(),
        HistEntry {
            ep: "0".to_string(),
            id: "c".to_string(),
            title: "C".to_string(),
        },
        before[1].clone(),
        HistEntry {
            ep: "2".to_string(),
            id: "b".to_string(),
            title: "B".to_string(),
        },
    ];

    let added = added_entries(&before, &after);
    assert_eq!(added.len(), 2);
    assert_eq!(added[0].id, "c");
    assert_eq!(added[1].id, "b");
}
