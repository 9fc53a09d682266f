use anitrack::detect::HistFileSig;
use anitrack::index::TextMap;
use anitrack::ledger::{
    append_history_warnings, parse_hist_line, parse_hist_map, read_hist_map, HistEntry, LedgerFile,
};
use anitrack::text::{chars_of, split_lines, split_words, string_of, trim_chars};

fn non_blank_lines(raw: &str) -> usize {
    raw.lines().filter(|l| !l.trim().is_empty()).count()
}

#[test]
fn skipped_and_parsed_lines_add_up_to_the_lines_that_are_not_blank() {
    let texts = [
        "",
        "\n\n\n",
        "1\ta\tA\n",
        "1\ta\tA\n\n  \n2 b Some Title\nbad\n\t\t\nx\ty\n3\tc\tC",
        "1\ta\tA\r\n2\tb\tB\r\nnot-an-entry\r\n",
        "only one field\twith a tab",
        " \t \n5  id-5   Spaced   Out   Title  \n",
    ];
    for raw in texts {
        let (_, ordered, skipped) = parse_hist_map(raw);
        assert_eq!(skipped + ordered.len(), non_blank_lines(raw), "text {raw:?}");
    }
}

#[test]
fn exact_counts_for_a_mixed_file() {
    let raw = "1\ta\tA\n\n  \n2 b Some Title\nbad\n\t\t\nx\ty\n3\tc\tC";
    let (map, ordered, skipped) = parse_hist_map(raw);
    assert_eq!(ordered.len(), 3);
    assert_eq!(skipped, 2);
    assert_eq!(map.len(), 3);
    assert_eq!(ordered[1].ep, "2");
    assert_eq!(ordered[1].id, "b");
    assert_eq!(ordered[1].title, "Some Title");
}

#[test]
fn tabbed_line_keeps_further_tabs_in_the_title() {
    let entry = parse_hist_line("  7\t id-7 \tA\tB  ").expect("line should parse");
    assert_eq!(entry.ep, "7");
    assert_eq!(entry.id, "id-7");
    assert_eq!(entry.title, "A\tB");
}

#[test]
fn tabbed_line_with_an_empty_field_is_rejected() {
    assert!(parse_hist_line("\tid\ttitle").is_none());
    assert!(parse_hist_line("1\t \ttitle").is_none());
    assert!(parse_hist_line("1\tid\t   ").is_none());
    assert!(parse_hist_line("1\tid").is_none());
}

#[test]
fn spaced_line_needs_three_words_and_rejoins_the_title() {
    assert!(parse_hist_line("1 id").is_none());
    assert!(parse_hist_line("1").is_none());
    assert!(parse_hist_line("   ").is_none());
    assert!(parse_hist_line("").is_none());
    let entry = parse_hist_line("1   id    A   long    title").expect("line should parse");
    assert_eq!(entry.title, "A long title");
}

#[test]
fn the_last_line_of_a_show_is_the_one_recorded() {
    let raw = "1\ta\tA\n2\tb\tB\n3\ta\tA\n";
    let (map, ordered, _) = parse_hist_map(raw);
    assert_eq!(ordered.len(), 3);
    assert_eq!(map.len(), 2);
    assert_eq!(map.get("a").map(|e| e.ep.as_str()), Some("3"));
    assert_eq!(map.get("b").map(|e| e.ep.as_str()), Some("2"));
    assert!(map.get("c").is_none());
    assert!(map.contains_key("a"));
    assert!(!map.contains_key("A"));
}

#[test]
fn a_missing_file_gives_an_empty_snapshot_without_warning() {
    let snap = read_hist_map("/tmp/none", LedgerFile::Missing, None);
    assert!(snap.ordered_entries.is_empty());
    assert!(snap.entries.is_empty());
    assert!(snap.warnings.is_empty());
    assert_eq!(snap.signature, None);
}

#[test]
fn an_unreadable_file_gives_an_empty_snapshot_with_a_warning() {
    let snap = read_hist_map(
        "/state/ani-hsts",
        LedgerFile::Unreadable("permission denied".to_string()),
        None,
    );
    assert!(snap.ordered_entries.is_empty());
    assert_eq!(
        snap.warnings,
        vec!["failed to read ani-cli history at /state/ani-hsts: permission denied".to_string()]
    );
}

#[test]
fn malformed_lines_give_one_warning_for_all_of_them() {
    let sig = Some(HistFileSig { len: 30, modified_ns: 7 });
    let snap = read_hist_map(
        "/state/ani-hsts",
        LedgerFile::Text("1\ta\tA\nbad\nworse\n\nalso bad\tx\n".to_string()),
        sig,
    );
    assert_eq!(snap.ordered_entries.len(), 1);
    assert_eq!(
        snap.warnings,
        vec!["ignored 3 malformed line(s) in /state/ani-hsts".to_string()]
    );
    assert_eq!(snap.signature, sig);
}

#[test]
fn a_clean_file_gives_no_warning() {
    let snap = read_hist_map("p", LedgerFile::Text("1\ta\tA\n".to_string()), None);
    assert!(snap.warnings.is_empty());
    assert_eq!(snap.entries.len(), 1);
}

#[test]
fn warnings_are_appended_each_on_a_line() {
    let mut message = "Done.".to_string();
    append_history_warnings(&mut message, &["one".to_string(), "two".to_string()]);
    assert_eq!(message, "Done.\nWarning: one\nWarning: two");
    let mut plain = "Done.".to_string();
    append_history_warnings(&mut plain, &[]);
    assert_eq!(plain, "Done.");
}

#[test]
fn text_map_replaces_and_counts() {
    let mut map: TextMap<HistEntry> = TextMap::new();
    assert!(map.is_empty());
    assert_eq!(map.len(), 0);
    let e = |ep: &str| HistEntry {
        ep: ep.to_string(),
        id: "x".to_string(),
        title: "T".to_string(),
    };
    map.insert("x".to_string(), e("1"));
    map.insert("y".to_string(), e("5"));
    map.insert("x".to_string(), e("2"));
    assert_eq!(map.len(), 2);
    assert_eq!(map.get("x").map(|v| v.ep.as_str()), Some("2"));
    assert_eq!(map.get("y").map(|v| v.ep.as_str()), Some("5"));
    assert!(!map.is_empty());
}

#[test]
fn lines_end_at_line_feeds_and_drop_a_carriage_return_before_them() {
    let lines = |s: &str| -> Vec<String> {
        split_lines(&chars_of(s)).iter().map(|l| string_of(l)).collect()
    };
    assert_eq!(lines(""), Vec::<String>::new());
    assert_eq!(lines("\n"), vec![""]);
    assert_eq!(lines("a\n\nb\n"), vec!["a", "", "b"]);
    assert_eq!(lines("a\r\nb\r"), vec!["a", "b\r"]);
    assert_eq!(lines("a\nb"), vec!["a", "b"]);
    for s in ["", "\n", "a\n\nb\n", "a\r\nb\r", "x\r\n\r\n", "\r", "a\n\r\nb"] {
        let expected: Vec<String> = s.lines().map(|l| l.to_string()).collect();
        assert_eq!(lines(s), expected, "text {s:?}");
    }
}

#[test]
fn words_and_trimming_follow_unicode_white_space() {
    let words = |s: &str| -> Vec<String> {
        split_words(&chars_of(s)).iter().map(|w| string_of(w)).collect()
    };
    for s in ["", "  ", " a  b\tc\n", "a\u{a0}b\u{3000}c", "\u{2003}x\u{85}", "x\u{200b}y"] {
        let expected: Vec<String> = s.split_whitespace().map(|w| w.to_string()).collect();
        assert_eq!(words(s), expected, "text {s:?}");
        assert_eq!(string_of(&trim_chars(&chars_of(s))), s.trim(), "text {s:?}");
    }
}

#[test]
fn every_character_agrees_with_the_standard_library_on_white_space() {
    let mut c = 0u32;
    while c <= 0x10ffff {
        if let Some(ch) = char::from_u32(c) {
            assert_eq!(
                anitrack::text::char_is_whitespace(ch),
                ch.is_whitespace(),
                "code point {c:#x}"
            );
        }
        c += 1;
    }
}
