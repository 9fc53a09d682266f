use anitrack::catalog::{
    choose_episode_labels_candidate, episode_labels_from_answer, mode_labels_from_json,
    parse_mode_episode_labels, sort_episode_labels,
};
use anitrack::db::SeenEntry;
use anitrack::http::{
    exhausted_without_error, retry_step, should_retry_http_status, Attempt, RetryStep,
};
use anitrack::json::{parse_json, Json};
use anitrack::search::{
    episodes_variables, fetch_search_result_entries_with_diagnostics, find_select_nth_index,
    find_select_nth_index_by_title, json_escape, normalize_title_for_match, parse_json_string,
    resolve_select_nth_for_item_with_diagnostics, resolve_select_nth_step,
    search_entries_from_json, search_variables, select_modes, select_queries, FetchResponse,
    SearchEntriesFetchOutcome, SearchResultEntry,
};

fn list(labels: &[&str]) -> Vec<String> {
    labels.iter().map(|l| l.to_string()).collect()
}

fn result(id: &str, title: &str) -> SearchResultEntry {
    SearchResultEntry { id: id.to_string(), title: title.to_string() }
}

fn item(id: &str, title: &str) -> SeenEntry {
    SeenEntry {
        ani_id: id.to_string(),
        title: title.to_string(),
        last_episode: "1".to_string(),
        last_seen_at: "2026-02-27T00:00:00+00:00".to_string(),
    }
}

#[test]
fn documents_are_read_into_trees() {
    let doc = parse_json(r#"{"b":[1,2.5,"x",null,true,{"k":-3}],"a":"first"}"#).expect("json");
    assert_eq!(doc.get("a").and_then(|j| j.as_str()), Some("first"));
    assert!(doc.get("c").is_none());
    let items = doc.get("b").and_then(|j| j.as_array()).expect("array");
    assert_eq!(items.len(), 6);
    assert!(matches!(&items[0], Json::Number(n) if n == "1"));
    assert!(matches!(&items[1], Json::Number(n) if n == "2.5"));
    assert!(matches!(&items[2], Json::Text(t) if t == "x"));
    assert!(matches!(&items[3], Json::Null));
    assert!(matches!(&items[4], Json::Bool(true)));
    assert_eq!(items[5].get("k").map(|j| matches!(j, Json::Number(n) if n == "-3")), Some(true));
    assert!(items[0].get("k").is_none());
    assert!(items[0].as_array().is_none());
    assert!(parse_json("{not json").is_none());
    assert!(parse_json("").is_none());
}

#[test]
fn labels_are_taken_from_strings_and_numbers() {
    let payload = r#"{"data":{"show":{"availableEpisodesDetail":{
        "sub":[" 1 ", 2, 2.5, null, "", "null", true, ["3"], "OVA"],
        "dub":[],
        "raw":"none"}}}}"#;
    assert_eq!(parse_mode_episode_labels(payload, "sub"), Some(list(&["1", "2", "2.5", "OVA"])));
    assert_eq!(parse_mode_episode_labels(payload, "dub"), None);
    assert_eq!(parse_mode_episode_labels(payload, "raw"), None);
    assert_eq!(parse_mode_episode_labels(payload, "none"), None);
    assert_eq!(parse_mode_episode_labels("[]", "sub"), None);
    assert_eq!(parse_mode_episode_labels("nonsense", "sub"), None);
    let doc = parse_json(payload).expect("json");
    assert_eq!(mode_labels_from_json(&doc, "sub"), Some(list(&["1", "2", "2.5", "OVA"])));
}

#[test]
fn the_list_of_the_stated_length_is_preferred_and_else_the_longest() {
    let a = list(&["1", "2"]);
    let b = list(&["1", "2", "3"]);
    let c = list(&["x", "y", "z"]);
    assert_eq!(choose_episode_labels_candidate(vec![], Some(3)), None);
    assert_eq!(choose_episode_labels_candidate(vec![], None), None);
    assert_eq!(choose_episode_labels_candidate(vec![a.clone(), b.clone()], Some(2)), Some(a.clone()));
    assert_eq!(choose_episode_labels_candidate(vec![b.clone(), c.clone()], Some(3)), Some(b.clone()));
    assert_eq!(choose_episode_labels_candidate(vec![a.clone(), b.clone()], None), Some(b.clone()));
    assert_eq!(choose_episode_labels_candidate(vec![a.clone(), b.clone()], Some(9)), Some(b.clone()));
    assert_eq!(choose_episode_labels_candidate(vec![b.clone(), c.clone()], None), Some(c.clone()));
    assert_eq!(choose_episode_labels_candidate(vec![b.clone(), a.clone()], None), Some(b));
    assert_eq!(choose_episode_labels_candidate(vec![a.clone()], Some(7)), Some(a));
}

#[test]
fn labels_are_sorted_with_numbers_first_and_equals_in_their_order() {
    let sorted = sort_episode_labels(&list(&["10", "OVA", "2", "1.0", "Extra", "1", "13.5", "0"]));
    assert_eq!(sorted, list(&["0", "1.0", "1", "2", "10", "13.5", "Extra", "OVA"]));
    assert_eq!(sort_episode_labels(&[]), Vec::<String>::new());
    let mut by_std = list(&["10", "OVA", "2", "1.0", "Extra", "1", "13.5", "0", "-1", "2.50", "2.5"]);
    let by_lib = sort_episode_labels(&by_std);
    by_std.sort_by(|a, b| anitrack::order::compare_episode_labels(a, b));
    assert_eq!(by_lib, by_std);
}

#[test]
fn the_catalog_of_an_answer_is_chosen_and_sorted() {
    let payload = r#"{"data":{"show":{"availableEpisodesDetail":{
        "sub":["3","1","2"], "dub":["2","1"]}}}}"#;
    assert_eq!(episode_labels_from_answer(payload, None), Some(list(&["1", "2", "3"])));
    assert_eq!(episode_labels_from_answer(payload, Some(2)), Some(list(&["1", "2"])));
    assert_eq!(episode_labels_from_answer(payload, Some(5)), Some(list(&["1", "2", "3"])));
    assert_eq!(episode_labels_from_answer(r#"{"data":{}}"#, None), None);
    assert_eq!(episode_labels_from_answer("oops", Some(2)), None);
}

#[test]
fn search_results_need_an_id_and_a_name() {
    let doc = parse_json(
        r#"{"data":{"shows":{"edges":[
            {"_id":" id-1 ","name":" A "},
            {"_id":"","name":"B"},
            {"_id":"id-3"},
            {"_id":4,"name":"D"},
            {"name":"E","_id":"id-5"},
            "stray"]}}}"#,
    )
    .expect("json");
    let entries = search_entries_from_json(&doc);
    let found: Vec<(String, String)> = entries.into_iter().map(|e| (e.id, e.title)).collect();
    assert_eq!(
        found,
        vec![("id-1".to_string(), "A".to_string()), ("id-5".to_string(), "E".to_string())]
    );
    let other = parse_json(r#"{"data":{"shows":{"edges":"none"}}}"#).expect("json");
    assert!(search_entries_from_json(&other).is_empty());
    assert!(search_entries_from_json(&Json::Null).is_empty());
}

#[test]
fn titles_are_compared_without_case_and_punctuation() {
    assert_eq!(normalize_title_for_match("  Shingeki  no Kyojin! (27 episodes)"), "shingeki no kyojin");
    assert_eq!(normalize_title_for_match("Re:ZERO - Starting Life"), "re zero starting life");
    assert_eq!(normalize_title_for_match("ÄÖÜ 12"), "äöü 12");
    assert_eq!(normalize_title_for_match("!!!"), "");
    let entries = vec![result("a", "Death Note"), result("b", "DEATH-NOTE"), result("c", "Other")];
    assert_eq!(find_select_nth_index_by_title(&entries, "death note (37 episodes)"), Some(1));
    assert_eq!(find_select_nth_index_by_title(&entries, "other!"), Some(3));
    assert_eq!(find_select_nth_index_by_title(&entries, "none"), None);
}

#[test]
fn the_id_counts_before_the_title() {
    let entries = vec![result("x", "Show"), result("id", "Another"), result("id", "Show")];
    assert_eq!(find_select_nth_index(&entries, "id", "Show"), Some(2));
    assert_eq!(find_select_nth_index(&entries, "none", "show"), Some(1));
    assert_eq!(find_select_nth_index(&entries, "none", "none"), None);
    assert_eq!(find_select_nth_index(&[], "id", "Show"), None);
}

#[test]
fn control_characters_are_escaped_with_four_hexadecimal_digits() {
    assert_eq!(json_escape("a\u{1}b"), "a\\u0001b");
    assert_eq!(json_escape("\u{1f}\u{7f}\u{9f}\u{0}"), "\\u001f\\u007f\\u009f\\u0000");
    assert_eq!(json_escape("\t\r\n\"\\"), "\\t\\r\\n\\\"\\\\");
    assert_eq!(json_escape("plain äö \u{a0}"), "plain äö \u{a0}");
    assert_eq!(json_escape(""), "");
}

#[test]
fn the_request_variables_hold_the_escaped_query_and_mode() {
    assert_eq!(
        search_variables("a \"b\"", "sub"),
        "{\"search\":{\"allowAdult\":false,\"allowUnknown\":false,\"query\":\"a \\\"b\\\"\"},\"limit\":40,\"page\":1,\"translationType\":\"sub\",\"countryOrigin\":\"ALL\"}"
    );
    assert_eq!(episodes_variables("abc123"), "{\"showId\":\"abc123\"}");
}

#[test]
fn a_string_is_read_byte_by_byte_up_to_its_closing_quote() {
    let raw = r#"{"_id":"id-1","name":"A \"quoted\" \\ name\n"}"#;
    assert_eq!(parse_json_string(raw, 8), Some(("id-1".to_string(), 13)));
    assert_eq!(
        parse_json_string(raw, 22),
        Some(("A \"quoted\" \\ name\n".to_string(), raw.len() - 1))
    );
    assert_eq!(parse_json_string("abc", 0), None);
    assert_eq!(parse_json_string("abc\\\"", 0), None);
    assert_eq!(parse_json_string("abc\"", 4), None);
    assert_eq!(parse_json_string("abc\"", 9), None);
    assert_eq!(parse_json_string("\"", 0), Some(("".to_string(), 1)));
    assert_eq!(parse_json_string("\\t\\r\\x\"", 0), Some(("\t\rx".to_string(), 7)));
}

#[test]
fn each_way_a_request_can_end_is_reported() {
    let spawn = fetch_search_result_entries_with_diagnostics(
        "a \"b\"",
        "sub",
        FetchResponse::SpawnFailed("no such file".to_string()),
    );
    assert!(spawn.entries.is_none());
    assert_eq!(
        spawn.warning.as_deref(),
        Some("show search request failed for query=\"a \\\"b\\\"\" mode=sub: unable to spawn curl (no such file)")
    );
    let failed = fetch_search_result_entries_with_diagnostics(
        "q",
        "dub",
        FetchResponse::Failed { status: "exit status: 6".to_string(), detail: "  could not resolve \n".to_string() },
    );
    assert_eq!(
        failed.warning.as_deref(),
        Some("show search request failed for query=\"q\" mode=dub: curl exited with exit status: 6 (could not resolve)")
    );
    let silent = fetch_search_result_entries_with_diagnostics(
        "q",
        "dub",
        FetchResponse::Failed { status: "exit status: 6".to_string(), detail: " \n".to_string() },
    );
    assert_eq!(
        silent.warning.as_deref(),
        Some("show search request failed for query=\"q\" mode=dub: curl exited with exit status: 6")
    );
    let binary = fetch_search_result_entries_with_diagnostics(
        "q",
        "sub",
        FetchResponse::Undecodable("invalid utf-8".to_string()),
    );
    assert_eq!(
        binary.warning.as_deref(),
        Some("show search response decode failed for query=\"q\" mode=sub: invalid utf-8")
    );
    let empty = fetch_search_result_entries_with_diagnostics(
        "q",
        "sub",
        FetchResponse::Body(r#"{"data":{"shows":{"edges":[]}}}"#.to_string()),
    );
    assert!(empty.entries.is_none() && empty.warning.is_none());
    let good = fetch_search_result_entries_with_diagnostics(
        "q",
        "sub",
        FetchResponse::Body(r#"{"data":{"shows":{"edges":[{"_id":"i","name":"N"}]}}}"#.to_string()),
    );
    assert!(good.warning.is_none());
    assert_eq!(good.entries.map(|e| e.len()), Some(1));
}

#[test]
fn the_searches_to_make_are_laid_out_in_order() {
    assert_eq!(select_queries("Show"), list(&["Show"]));
    assert_eq!(select_queries(" Show (12 episodes) "), list(&["Show", "Show (12 episodes)"]));
    assert_eq!(select_modes(None), list(&["sub", "dub"]));
    assert_eq!(select_modes(Some("sub")), list(&["sub", "dub"]));
    assert_eq!(select_modes(Some("dub")), list(&["dub", "sub", "dub"]));
    assert_eq!(select_modes(Some("raw")), list(&["raw", "sub", "dub"]));
}

#[test]
fn the_first_search_that_finds_the_show_decides() {
    let show = item("id-2", "Show (12 episodes)");
    let outcome = |entries: Option<Vec<SearchResultEntry>>, warning: Option<&str>| {
        SearchEntriesFetchOutcome { entries, warning: warning.map(|w| w.to_string()) }
    };
    let outcomes = vec![
        outcome(None, Some("first failed")),
        outcome(Some(vec![result("x", "Other")]), None),
        outcome(Some(vec![result("x", "Other"), result("y", "show")]), Some("slow")),
        outcome(Some(vec![result("id-2", "Show")]), Some("never looked at")),
    ];
    let resolution = resolve_select_nth_for_item_with_diagnostics(&show, outcomes);
    assert_eq!(resolution.index, Some(2));
    assert_eq!(resolution.warnings, list(&["first failed", "slow"]));

    let nothing = resolve_select_nth_for_item_with_diagnostics(
        &show,
        vec![outcome(None, Some("a")), outcome(None, None), outcome(None, Some("b"))],
    );
    assert_eq!(nothing.index, None);
    assert_eq!(nothing.warnings, list(&["a", "b"]));
    assert_eq!(resolve_select_nth_for_item_with_diagnostics(&show, vec![]).index, None);

    let mut warnings = vec!["kept".to_string()];
    let step = resolve_select_nth_step(
        &show,
        outcome(Some(vec![result("id-2", "Z")]), Some("w")),
        &mut warnings,
    );
    assert_eq!(step, Some(1));
    assert_eq!(warnings, list(&["kept", "w"]));
}

#[test]
fn timeouts_and_server_errors_are_worth_another_try() {
    for status in [408u16, 429, 500, 503, 599] {
        assert!(should_retry_http_status(status), "status {status}");
    }
    for status in [200u16, 400, 404, 407, 409, 428, 430, 499, 600] {
        assert!(!should_retry_http_status(status), "status {status}");
    }
}

#[test]
fn a_request_is_tried_again_while_tries_are_left() {
    let status = |status: u16, body: &str| Attempt::Status { status, body: body.to_string() };
    assert!(matches!(retry_step(1, 3, status(503, "busy")), RetryStep::Retry));
    assert!(matches!(retry_step(2, 3, Attempt::Transport("timed out".to_string())), RetryStep::Retry));
    match retry_step(3, 3, status(503, " busy ")) {
        RetryStep::Fail(m) => assert_eq!(m, "request failed after 3 attempt(s): HTTP status 503 (busy)"),
        other => panic!("unexpected step {other:?}"),
    }
    match retry_step(3, 3, Attempt::Transport("timed out".to_string())) {
        RetryStep::Fail(m) => {
            assert_eq!(m, "request failed after 3 attempt(s): transport error: timed out")
        }
        other => panic!("unexpected step {other:?}"),
    }
    match retry_step(1, 3, status(404, "")) {
        RetryStep::Fail(m) => assert_eq!(m, "request failed: HTTP status 404"),
        other => panic!("unexpected step {other:?}"),
    }
    match retry_step(1, 0, status(500, "")) {
        RetryStep::Fail(m) => assert_eq!(m, "request failed after 1 attempt(s): HTTP status 500"),
        other => panic!("unexpected step {other:?}"),
    }
    match retry_step(1, 3, Attempt::DecodeFailed("bad bytes".to_string())) {
        RetryStep::Fail(m) => assert_eq!(m, "request failed: response decode failed: bad bytes"),
        other => panic!("unexpected step {other:?}"),
    }
    match retry_step(2, 3, Attempt::Body("text".to_string())) {
        RetryStep::Succeed(b) => assert_eq!(b, "text"),
        other => panic!("unexpected step {other:?}"),
    }
    assert_eq!(
        exhausted_without_error(),
        "request failed: exhausted attempts without a concrete error"
    );
}

#[test]
fn a_long_body_is_quoted_up_to_its_first_240_characters() {
    let body = "ä".repeat(300);
    match retry_step(1, 1, Attempt::Status { status: 400, body }) {
        RetryStep::Fail(m) => {
            assert_eq!(m, format!("request failed: HTTP status 400 ({})", "ä".repeat(240)))
        }
        other => panic!("unexpected step {other:?}"),
    }
}
