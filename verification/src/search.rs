//! The catalog service's search: what to ask it, how to read its answer,
//! and which place a show has among the results.
use crate::db::SeenEntry;
use crate::json::{json_document, parse_json, Json};
use crate::ledger::string_views;
use crate::progress::ordinal_of;
use crate::text::{
    char_is_whitespace, chars_eq, chars_of, collapse_chars, collapse_whitespace, is_whitespace,
    string_of, trim, trim_chars,
};
use crate::title::{sanitize_title_for_search, search_title, title_and_total, title_and_total_chars};
use vstd::prelude::*;
use vstd::string::StringSliceAdditionalSpecFns;

verus! {

/// One result of a search: the id of a show and its name.
#[derive(Debug, Clone)]
pub struct SearchResultEntry {
    pub id: String,
    pub title: String,
}

/// What a `SearchResultEntry` stands for: its two texts.
pub struct SearchResult {
    pub id: Seq<char>,
    pub title: Seq<char>,
}

impl View for SearchResultEntry {
    type V = SearchResult;

    open spec fn view(&self) -> SearchResult {
        SearchResult { id: self.id@, title: self.title@ }
    }
}

/// The views of a sequence of search results.
pub open spec fn result_views(v: Seq<SearchResultEntry>) -> Seq<SearchResult> {
    v.map_values(|e: SearchResultEntry| e@)
}

/// The text in lower case, as `str::to_lowercase` gives it.
pub uninterp spec fn lowercase_text(s: Seq<char>) -> Seq<char>;

/// Whether a character is a letter or a number, as `char::is_alphanumeric`
/// tells it.
pub uninterp spec fn is_alphanumeric_char(c: char) -> bool;

/// `str::to_lowercase`: the text in lower case. The result depends on the
/// text alone.
#[verifier::external_body]
fn lowercase_chars(s: &[char]) -> (out: Vec<char>)
    ensures
        out@ == lowercase_text(s@),
{
    s.iter().collect::<String>().to_lowercase().chars().collect()
}

/// `char::is_alphanumeric`: whether the character is a letter or a number.
/// The result depends on the character alone.
#[verifier::external_body]
fn char_is_alphanumeric(c: char) -> (b: bool)
    ensures
        b == is_alphanumeric_char(c),
{
    c.is_alphanumeric()
}

/// A character of a title as it counts in a comparison: letters, numbers and
/// white space as they are, anything else as a space.
pub open spec fn plain_char(c: char) -> char {
    if is_alphanumeric_char(c) || is_whitespace(c) {
        c
    } else {
        ' '
    }
}

/// The title as it counts in a comparison: its name without the note on
/// episodes, in lower case, with everything but letters, numbers and white
/// space turned into spaces, and its words separated by single spaces.
pub open spec fn match_title(raw: Seq<char>) -> Seq<char> {
    collapse_whitespace(lowercase_text(title_and_total(raw).0).map_values(|c: char| plain_char(c)))
}

/// Position `i` holds the first result with the id `ani_id`.
pub open spec fn is_first_with_id(entries: Seq<SearchResult>, ani_id: Seq<char>, i: int) -> bool {
    &&& 0 <= i < entries.len()
    &&& entries[i].id == ani_id
    &&& forall|j: int| 0 <= j < i ==> (#[trigger] entries[j]).id != ani_id
}

/// The place, counted from 1, of the first result with the id `ani_id`.
pub open spec fn place_by_id(entries: Seq<SearchResult>, ani_id: Seq<char>) -> Option<u32> {
    let i = choose|i: int| is_first_with_id(entries, ani_id, i);
    if is_first_with_id(entries, ani_id, i) {
        Some(ordinal_of(i))
    } else {
        None
    }
}

/// Position `i` holds the first result whose title counts the same as
/// `title`.
pub open spec fn is_first_with_title(entries: Seq<SearchResult>, title: Seq<char>, i: int) -> bool {
    &&& 0 <= i < entries.len()
    &&& match_title(entries[i].title) == match_title(title)
    &&& forall|j: int| 0 <= j < i ==> match_title((#[trigger] entries[j]).title) != match_title(title)
}

/// The place, counted from 1, of the first result whose title counts the
/// same as `title`.
pub open spec fn place_by_title(entries: Seq<SearchResult>, title: Seq<char>) -> Option<u32> {
    let i = choose|i: int| is_first_with_title(entries, title, i);
    if is_first_with_title(entries, title, i) {
        Some(ordinal_of(i))
    } else {
        None
    }
}

fn place_of(i: usize) -> (r: u32)
    ensures
        r == ordinal_of(i as int),
{
    let wide: u128 = i as u128 + 1;
    (wide % 0x1_0000_0000u128) as u32
}

/// The title as it counts in a comparison, over characters.
pub fn match_title_chars(raw: &[char]) -> (out: Vec<char>)
    ensures
        out@ == match_title(raw@),
{
    let (name, _total) = title_and_total_chars(raw);
    let lower = lowercase_chars(name.as_slice());
    let mut plain: Vec<char> = Vec::new();
    let mut i: usize = 0;
    let ghost target = lower@.map_values(|c: char| plain_char(c));
    while i < lower.len()
        invariant
            i <= lower.len(),
            target == lower@.map_values(|c: char| plain_char(c)),
            plain@ == target.take(i as int),
        decreases lower.len() - i,
    {
        let c = lower[i];
        let d = if char_is_alphanumeric(c) || char_is_whitespace(c) {
            c
        } else {
            ' '
        };
        plain.push(d);
        i += 1;
        assert(target.take(i as int) =~= target.take(i - 1).push(target[i - 1]));
    }
    assert(target.take(i as int) =~= target);
    collapse_chars(plain.as_slice())
}

/// The title as it counts in a comparison of titles.
pub fn normalize_title_for_match(raw: &str) -> (out: String)
    ensures
        out@ == match_title(raw@),
{
    let c = chars_of(raw);
    string_of(match_title_chars(c.as_slice()).as_slice())
}

/// The place, counted from 1, of the first result with the id `ani_id`.
pub fn find_select_nth_index_by_id(entries: &[SearchResultEntry], ani_id: &str) -> (r: Option<u32>)
    ensures
        r == place_by_id(result_views(entries@), ani_id@),
{
    let ghost s = result_views(entries@);
    let wanted = chars_of(ani_id);
    let mut i: usize = 0;
    while i < entries.len()
        invariant
            i <= entries.len(),
            s == result_views(entries@),
            wanted@ == ani_id@,
            forall|j: int| 0 <= j < i ==> (#[trigger] s[j]).id != ani_id@,
        decreases entries.len() - i,
    {
        let id = chars_of(entries[i].id.as_str());
        assert(s[i as int] == entries@[i as int]@);
        if chars_eq(id.as_slice(), wanted.as_slice()) {
            proof {
                assert(is_first_with_id(s, ani_id@, i as int));
                let c = choose|c: int| is_first_with_id(s, ani_id@, c);
                assert(c == i);
            }
            return Some(place_of(i));
        }
        i += 1;
    }
    None
}

/// The place, counted from 1, of the first result whose title counts the
/// same as `title`.
pub fn find_select_nth_index_by_title(entries: &[SearchResultEntry], title: &str) -> (r: Option<
    u32,
>)
    ensures
        r == place_by_title(result_views(entries@), title@),
{
    let ghost s = result_views(entries@);
    let t = chars_of(title);
    let target = match_title_chars(t.as_slice());
    let mut i: usize = 0;
    while i < entries.len()
        invariant
            i <= entries.len(),
            s == result_views(entries@),
            target@ == match_title(title@),
            forall|j: int| 0 <= j < i ==> match_title((#[trigger] s[j]).title) != match_title(title@),
        decreases entries.len() - i,
    {
        let name = chars_of(entries[i].title.as_str());
        let key = match_title_chars(name.as_slice());
        assert(s[i as int] == entries@[i as int]@);
        if chars_eq(key.as_slice(), target.as_slice()) {
            proof {
                assert(is_first_with_title(s, title@, i as int));
                let c = choose|c: int| is_first_with_title(s, title@, c);
                assert(c == i);
            }
            return Some(place_of(i));
        }
        i += 1;
    }
    None
}

/// The place of a show among search results: by its id where a result has
/// it, else by its title.
pub open spec fn place_in_results(
    entries: Seq<SearchResult>,
    ani_id: Seq<char>,
    title: Seq<char>,
) -> Option<u32> {
    match place_by_id(entries, ani_id) {
        Some(p) => Some(p),
        None => place_by_title(entries, title),
    }
}

/// The place of a show among search results: by its id where a result has
/// it, else by its title.
pub fn find_select_nth_index(entries: &[SearchResultEntry], ani_id: &str, title: &str) -> (r:
    Option<u32>)
    ensures
        r == place_in_results(result_views(entries@), ani_id@, title@),
{
    match find_select_nth_index_by_id(entries, ani_id) {
        Some(p) => Some(p),
        None => find_select_nth_index_by_title(entries, title),
    }
}

/// The text of the member `key` of an object, where that member is a string.
pub open spec fn field_text(edge: Json, key: Seq<char>) -> Option<Seq<char>> {
    match edge.member(key) {
        Some(j) => j.text(),
        None => None,
    }
}

/// The search result that one edge of the answer holds: its `_id` and its
/// `name`, trimmed, where both are strings and neither is blank.
pub open spec fn edge_result(edge: Json) -> Option<SearchResult> {
    match (field_text(edge, "_id"@), field_text(edge, "name"@)) {
        (Some(id), Some(name)) => if trim(id).len() > 0 && trim(name).len() > 0 {
            Some(SearchResult { id: trim(id), title: trim(name) })
        } else {
            None
        },
        _ => None,
    }
}

/// The results that the edges hold, in the order of the edges.
pub open spec fn results_of_edges(edges: Seq<Json>) -> Seq<SearchResult>
    decreases edges.len(),
{
    if edges.len() == 0 {
        Seq::<SearchResult>::empty()
    } else {
        match edge_result(edges.last()) {
            Some(r) => results_of_edges(edges.drop_last()).push(r),
            None => results_of_edges(edges.drop_last()),
        }
    }
}

/// The member reached from `doc` by three names in turn.
pub open spec fn member3(doc: Json, a: Seq<char>, b: Seq<char>, c: Seq<char>) -> Option<Json> {
    match doc.member(a) {
        Some(x) => match x.member(b) {
            Some(y) => y.member(c),
            None => None,
        },
        None => None,
    }
}

/// The edges of a search answer: the array under `data`, `shows`, `edges`.
pub open spec fn search_edges(doc: Json) -> Option<Seq<Json>> {
    match member3(doc, "data"@, "shows"@, "edges"@) {
        Some(e) => e.items(),
        None => None,
    }
}

/// The results of a search answer; none where it has no edges.
pub open spec fn search_results(doc: Json) -> Seq<SearchResult> {
    match search_edges(doc) {
        Some(edges) => results_of_edges(edges),
        None => Seq::<SearchResult>::empty(),
    }
}

fn get3<'a>(doc: &'a Json, a: &str, b: &str, c: &str) -> (r: Option<&'a Json>)
    ensures
        match r {
            Some(j) => member3(*doc, a@, b@, c@) == Some(*j),
            None => member3(*doc, a@, b@, c@) is None,
        },
{
    match doc.get(a) {
        Some(x) => match x.get(b) {
            Some(y) => y.get(c),
            None => None,
        },
        None => None,
    }
}

fn trimmed_field(edge: &Json, key: &str) -> (r: Option<Vec<char>>)
    ensures
        match r {
            Some(t) => field_text(*edge, key@) is Some && t@ == trim(field_text(*edge, key@)->0),
            None => field_text(*edge, key@) is None,
        },
{
    match edge.get(key) {
        Some(j) => match j.as_str() {
            Some(s) => {
                let c = chars_of(s);
                Some(trim_chars(c.as_slice()))
            },
            None => None,
        },
        None => None,
    }
}

/// The results of a search answer, in the order of the answer.
pub fn search_entries_from_json(doc: &Json) -> (out: Vec<SearchResultEntry>)
    ensures
        result_views(out@) == search_results(*doc),
{
    let mut out: Vec<SearchResultEntry> = Vec::new();
    let edges = match get3(doc, "data", "shows", "edges") {
        Some(e) => match e.as_array() {
            Some(edges) => edges,
            None => {
                assert(result_views(out@) =~= Seq::<SearchResult>::empty());
                return out;
            },
        },
        None => {
            assert(result_views(out@) =~= Seq::<SearchResult>::empty());
            return out;
        },
    };
    let mut i: usize = 0;
    assert(result_views(out@) =~= results_of_edges(edges@.take(0)));
    while i < edges.len()
        invariant
            i <= edges.len(),
            result_views(out@) == results_of_edges(edges@.take(i as int)),
        decreases edges.len() - i,
    {
        proof {
            assert(edges@.take(i + 1).drop_last() =~= edges@.take(i as int));
            assert(edges@.take(i + 1).last() == edges@[i as int]);
        }
        let edge = &edges[i];
        match (trimmed_field(edge, "_id"), trimmed_field(edge, "name")) {
            (Some(id), Some(name)) => {
                if id.len() > 0 && name.len() > 0 {
                    let ghost prev = result_views(out@);
                    let entry = SearchResultEntry {
                        id: string_of(id.as_slice()),
                        title: string_of(name.as_slice()),
                    };
                    out.push(entry);
                    assert(result_views(out@) =~= prev.push(
                        SearchResult { id: id@, title: name@ },
                    ));
                }
            },
            _ => {},
        }
        i += 1;
    }
    assert(edges@.take(i as int) =~= edges@);
    out
}

/// The results that the text of a search answer holds; none where the text
/// is no JSON or has no edges.
pub open spec fn search_results_of_text(raw: Seq<char>) -> Seq<SearchResult> {
    match json_document(raw) {
        Some(doc) => search_results(doc),
        None => Seq::<SearchResult>::empty(),
    }
}

/// Reads the results of a search from the text of the answer.
pub fn parse_search_result_entries(raw: &str) -> (out: Vec<SearchResultEntry>)
    ensures
        result_views(out@) == search_results_of_text(raw@),
{
    match parse_json(raw) {
        Some(doc) => search_entries_from_json(&doc),
        None => {
            let out: Vec<SearchResultEntry> = Vec::new();
            assert(result_views(out@) =~= Seq::<SearchResult>::empty());
            out
        },
    }
}

/// The control characters: the code points of the general category `Cc`.
pub open spec fn is_control(c: char) -> bool {
    c <= '\u{1f}' || ('\u{7f}' <= c && c <= '\u{9f}')
}

/// The lower-case hexadecimal digit of a number below 16.
pub open spec fn hex_digit(d: nat) -> char {
    if d < 10 {
        crate::number::digit_char(d)
    } else if d == 10 {
        'a'
    } else if d == 11 {
        'b'
    } else if d == 12 {
        'c'
    } else if d == 13 {
        'd'
    } else if d == 14 {
        'e'
    } else {
        'f'
    }
}

/// A character as it stands inside a JSON string: quote, backslash, line
/// feed, carriage return and tab behind a backslash, other control
/// characters as `\u00` and two hexadecimal digits, anything else as it is.
pub open spec fn escaped_char(c: char) -> Seq<char> {
    if c == '"' {
        seq!['\\', '"']
    } else if c == '\\' {
        seq!['\\', '\\']
    } else if c == '\n' {
        seq!['\\', 'n']
    } else if c == '\r' {
        seq!['\\', 'r']
    } else if c == '\t' {
        seq!['\\', 't']
    } else if is_control(c) {
        seq!['\\', 'u', '0', '0', hex_digit((c as nat) / 16), hex_digit((c as nat) % 16)]
    } else {
        seq![c]
    }
}

/// A text as it stands inside a JSON string.
pub open spec fn escaped(s: Seq<char>) -> Seq<char>
    decreases s.len(),
{
    if s.len() == 0 {
        Seq::<char>::empty()
    } else {
        escaped(s.drop_last()) + escaped_char(s.last())
    }
}

fn hex_char(d: u32) -> (c: char)
    requires
        d < 16,
    ensures
        c == hex_digit(d as nat),
{
    if d == 0 {
        '0'
    } else if d == 1 {
        '1'
    } else if d == 2 {
        '2'
    } else if d == 3 {
        '3'
    } else if d == 4 {
        '4'
    } else if d == 5 {
        '5'
    } else if d == 6 {
        '6'
    } else if d == 7 {
        '7'
    } else if d == 8 {
        '8'
    } else if d == 9 {
        '9'
    } else if d == 10 {
        'a'
    } else if d == 11 {
        'b'
    } else if d == 12 {
        'c'
    } else if d == 13 {
        'd'
    } else if d == 14 {
        'e'
    } else {
        'f'
    }
}

fn push_escaped(out: &mut Vec<char>, c: char)
    ensures
        final(out)@ == old(out)@ + escaped_char(c),
{
    let ghost before = out@;
    if c == '"' {
        out.push('\\');
        out.push('"');
    } else if c == '\\' {
        out.push('\\');
        out.push('\\');
    } else if c == '\n' {
        out.push('\\');
        out.push('n');
    } else if c == '\r' {
        out.push('\\');
        out.push('r');
    } else if c == '\t' {
        out.push('\\');
        out.push('t');
    } else if c <= '\u{1f}' || ('\u{7f}' <= c && c <= '\u{9f}') {
        let code: u32 = c as u32;
        out.push('\\');
        out.push('u');
        out.push('0');
        out.push('0');
        out.push(hex_char(code / 16));
        out.push(hex_char(code % 16));
    } else {
        out.push(c);
    }
    assert(out@ =~= before + escaped_char(c));
}

/// A text as it stands inside a JSON string, over characters.
pub fn escaped_chars(raw: &[char]) -> (out: Vec<char>)
    ensures
        out@ == escaped(raw@),
{
    let mut out: Vec<char> = Vec::new();
    let mut i: usize = 0;
    assert(raw@.take(0) =~= Seq::<char>::empty());
    while i < raw.len()
        invariant
            i <= raw.len(),
            out@ == escaped(raw@.take(i as int)),
        decreases raw.len() - i,
    {
        proof {
            assert(raw@.take(i + 1).drop_last() =~= raw@.take(i as int));
            assert(raw@.take(i + 1).last() == raw@[i as int]);
        }
        push_escaped(&mut out, raw[i]);
        i += 1;
    }
    assert(raw@.take(i as int) =~= raw@);
    out
}

/// A text as it stands inside a JSON string.
pub fn json_escape(raw: &str) -> (out: String)
    ensures
        out@ == escaped(raw@),
{
    let c = chars_of(raw);
    string_of(escaped_chars(c.as_slice()).as_slice())
}

/// The text as `{:?}` prints it: in quotes, with what cannot stand in them
/// escaped.
pub uninterp spec fn debug_text(s: Seq<char>) -> Seq<char>;

/// `format!("{:?}", s)` for a string: the text in quotes, escaped for
/// display. The result depends on the text alone.
#[verifier::external_body]
fn debug_string(s: &str) -> (out: String)
    ensures
        out@ == debug_text(s@),
{
    format!("{:?}", s)
}

/// The variables of a search request: the query and the translation mode,
/// each as a JSON string, in the object that the catalog service expects.
pub open spec fn search_variables_of(query: Seq<char>, mode: Seq<char>) -> Seq<char> {
    "{\"search\":{\"allowAdult\":false,\"allowUnknown\":false,\"query\":\""@ + escaped(query)
        + "\"},\"limit\":40,\"page\":1,\"translationType\":\""@ + escaped(mode)
        + "\",\"countryOrigin\":\"ALL\"}"@
}

/// The variables of a search request.
pub fn search_variables(query: &str, mode: &str) -> (out: String)
    ensures
        out@ == search_variables_of(query@, mode@),
{
    let mut out = String::from_str(
        "{\"search\":{\"allowAdult\":false,\"allowUnknown\":false,\"query\":\"",
    );
    out.append(json_escape(query).as_str());
    out.append("\"},\"limit\":40,\"page\":1,\"translationType\":\"");
    out.append(json_escape(mode).as_str());
    out.append("\",\"countryOrigin\":\"ALL\"}");
    out
}

/// The variables of a request for the episodes of a show.
pub fn episodes_variables(ani_id: &str) -> (out: String)
    ensures
        out@ == "{\"showId\":\""@ + ani_id@ + "\"}"@,
{
    let mut out = String::from_str("{\"showId\":\"");
    out.append(ani_id);
    out.append("\"}");
    out
}

/// How a request to the catalog service ended.
#[derive(Debug, Clone)]
pub enum FetchResponse {
    /// The request could not be started; the error.
    SpawnFailed(String),
    /// The request failed; its exit status and what it printed as error.
    Failed { status: String, detail: String },
    /// The answer is no text; the error.
    Undecodable(String),
    /// The text of the answer.
    Body(String),
}

/// What a search gave: the results, where there are any, and a warning
/// where the request went wrong.
#[derive(Debug, Clone)]
pub struct SearchEntriesFetchOutcome {
    pub entries: Option<Vec<SearchResultEntry>>,
    pub warning: Option<String>,
}

/// How a warning on a search request begins.
pub open spec fn request_label(query: Seq<char>, mode: Seq<char>) -> Seq<char> {
    "query="@ + debug_text(query) + " mode="@ + mode
}

/// The warning that a search request gives: none for an answer that was
/// read, and else what went wrong, for which query and which mode.
pub open spec fn fetch_warning(query: Seq<char>, mode: Seq<char>, response: FetchResponse)
    -> Option<Seq<char>> {
    match response {
        FetchResponse::SpawnFailed(err) => Some(
            "show search request failed for "@ + request_label(query, mode)
                + ": unable to spawn curl ("@ + err@ + ")"@,
        ),
        FetchResponse::Failed { status, detail } => Some(
            if trim(detail@).len() == 0 {
                "show search request failed for "@ + request_label(query, mode)
                    + ": curl exited with "@ + status@
            } else {
                "show search request failed for "@ + request_label(query, mode)
                    + ": curl exited with "@ + status@ + " ("@ + trim(detail@) + ")"@
            },
        ),
        FetchResponse::Undecodable(err) => Some(
            "show search response decode failed for "@ + request_label(query, mode) + ": "@
                + err@,
        ),
        FetchResponse::Body(_) => None,
    }
}

/// The results that a search request gives: those of the answer's text,
/// where it has any.
pub open spec fn fetch_results(response: FetchResponse) -> Option<Seq<SearchResult>> {
    match response {
        FetchResponse::Body(raw) => if search_results_of_text(raw@).len() > 0 {
            Some(search_results_of_text(raw@))
        } else {
            None
        },
        _ => None,
    }
}

fn request_prefix(head: &str, query: &str, mode: &str) -> (out: String)
    ensures
        out@ == head@ + request_label(query@, mode@),
{
    let mut out = String::from_str(head);
    out.append("query=");
    out.append(debug_string(query).as_str());
    out.append(" mode=");
    out.append(mode);
    assert(out@ =~= head@ + request_label(query@, mode@));
    out
}

/// Reads how a search request ended: the results where the answer holds
/// any, and a warning where the request could not be started, failed, or
/// gave no text.
pub fn fetch_search_result_entries_with_diagnostics(
    query: &str,
    mode: &str,
    response: FetchResponse,
) -> (out: SearchEntriesFetchOutcome)
    ensures
        match out.warning {
            Some(w) => fetch_warning(query@, mode@, response) == Some(w@),
            None => fetch_warning(query@, mode@, response) is None,
        },
        match out.entries {
            Some(e) => fetch_results(response) == Some(result_views(e@)),
            None => fetch_results(response) is None,
        },
{
    match response {
        FetchResponse::SpawnFailed(err) => {
            let mut w = request_prefix("show search request failed for ", query, mode);
            w.append(": unable to spawn curl (");
            w.append(err.as_str());
            w.append(")");
            SearchEntriesFetchOutcome { entries: None, warning: Some(w) }
        },
        FetchResponse::Failed { status, detail } => {
            let mut w = request_prefix("show search request failed for ", query, mode);
            w.append(": curl exited with ");
            w.append(status.as_str());
            let d = chars_of(detail.as_str());
            let t = trim_chars(d.as_slice());
            if t.len() > 0 {
                w.append(" (");
                w.append(string_of(t.as_slice()).as_str());
                w.append(")");
            }
            SearchEntriesFetchOutcome { entries: None, warning: Some(w) }
        },
        FetchResponse::Undecodable(err) => {
            let mut w = request_prefix("show search response decode failed for ", query, mode);
            w.append(": ");
            w.append(err.as_str());
            SearchEntriesFetchOutcome { entries: None, warning: Some(w) }
        },
        FetchResponse::Body(raw) => {
            let entries = parse_search_result_entries(raw.as_str());
            if entries.len() == 0 {
                SearchEntriesFetchOutcome { entries: None, warning: None }
            } else {
                SearchEntriesFetchOutcome { entries: Some(entries), warning: None }
            }
        },
    }
}

/// The titles to search a show by: the title without its note on episodes,
/// and behind it the trimmed title where that is another text.
pub open spec fn select_queries_of(title: Seq<char>) -> Seq<Seq<char>> {
    if search_title(title) == trim(title) {
        seq![search_title(title)]
    } else {
        seq![search_title(title), trim(title)]
    }
}

/// The titles to search a show by, in order.
pub fn select_queries(title: &str) -> (out: Vec<String>)
    ensures
        string_views(out@) == select_queries_of(title@),
{
    let cleaned = sanitize_title_for_search(title);
    let c = chars_of(title);
    let raw = string_of(trim_chars(c.as_slice()).as_slice());
    let mut out: Vec<String> = Vec::new();
    if cleaned == raw {
        out.push(cleaned);
        assert(string_views(out@) =~= select_queries_of(title@));
    } else {
        out.push(cleaned);
        out.push(raw);
        assert(string_views(out@) =~= select_queries_of(title@));
    }
    out
}

/// The translation modes to search in: the preferred one, `sub` where none
/// is set, then `sub`, then `dub`, a mode never twice in a row.
pub open spec fn select_modes_of(preferred: Option<Seq<char>>) -> Seq<Seq<char>> {
    let first = match preferred {
        Some(m) => m,
        None => "sub"@,
    };
    if first == "sub"@ {
        seq!["sub"@, "dub"@]
    } else {
        seq![first, "sub"@, "dub"@]
    }
}

/// The translation modes to search in, in order.
pub fn select_modes(preferred: Option<&str>) -> (out: Vec<String>)
    ensures
        string_views(out@) == select_modes_of(
            match preferred {
                Some(m) => Some(m@),
                None => None,
            },
        ),
{
    let first = match preferred {
        Some(m) => String::from_str(m),
        None => String::from_str("sub"),
    };
    let sub = String::from_str("sub");
    let mut out: Vec<String> = Vec::new();
    if first == sub {
        out.push(sub);
        out.push(String::from_str("dub"));
        assert(string_views(out@) =~= seq!["sub"@, "dub"@]);
    } else {
        out.push(first);
        out.push(sub);
        out.push(String::from_str("dub"));
        assert(string_views(out@) =~= seq![first@, "sub"@, "dub"@]);
    }
    out
}

/// Where a show stands among the results of a search, with the warnings
/// that the search gave on the way.
#[derive(Debug, Clone)]
pub struct SelectNthResolution {
    pub index: Option<u32>,
    pub warnings: Vec<String>,
}

/// The place that one search gives to a show: none without results.
pub open spec fn place_in_outcome(
    entries: Option<Seq<SearchResult>>,
    ani_id: Seq<char>,
    title: Seq<char>,
) -> Option<u32> {
    match entries {
        Some(e) => place_in_results(e, ani_id, title),
        None => None,
    }
}

/// Takes in how one search ended: its warning is kept, and the place it
/// gives to the show is the answer. While no search has given a place, the
/// next one is to be made.
pub fn resolve_select_nth_step(
    item: &SeenEntry,
    outcome: SearchEntriesFetchOutcome,
    warnings: &mut Vec<String>,
) -> (r: Option<u32>)
    ensures
        string_views(final(warnings)@) == match outcome.warning {
            Some(w) => string_views(old(warnings)@).push(w@),
            None => string_views(old(warnings)@),
        },
        r == place_in_outcome(
            match outcome.entries {
                Some(e) => Some(result_views(e@)),
                None => None,
            },
            item.ani_id@,
            item.title@,
        ),
{
    let ghost before = string_views(warnings@);
    if let Some(w) = outcome.warning {
        warnings.push(w);
        assert(string_views(warnings@) =~= before.push(w@));
    }
    match outcome.entries {
        Some(entries) => find_select_nth_index(
            entries.as_slice(),
            item.ani_id.as_str(),
            item.title.as_str(),
        ),
        None => None,
    }
}

/// What a search outcome stands for: its results and its warning.
pub open spec fn outcome_view(o: SearchEntriesFetchOutcome) -> (
    Option<Seq<SearchResult>>,
    Option<Seq<char>>,
) {
    (
        match o.entries {
            Some(e) => Some(result_views(e@)),
            None => None,
        },
        match o.warning {
            Some(w) => Some(w@),
            None => None,
        },
    )
}

/// The views of a sequence of search outcomes.
pub open spec fn outcome_views(v: Seq<SearchEntriesFetchOutcome>) -> Seq<
    (Option<Seq<SearchResult>>, Option<Seq<char>>),
> {
    v.map_values(|o: SearchEntriesFetchOutcome| outcome_view(o))
}

/// The place of a show after a row of searches, made one after the other
/// until one gives a place, and the warnings of the searches that were made.
pub open spec fn resolution_over(
    outcomes: Seq<(Option<Seq<SearchResult>>, Option<Seq<char>>)>,
    ani_id: Seq<char>,
    title: Seq<char>,
) -> (Option<u32>, Seq<Seq<char>>)
    decreases outcomes.len(),
{
    if outcomes.len() == 0 {
        (None, Seq::empty())
    } else {
        let first = outcomes[0];
        let own = match first.1 {
            Some(w) => seq![w],
            None => Seq::empty(),
        };
        match place_in_outcome(first.0, ani_id, title) {
            Some(p) => (Some(p), own),
            None => {
                let rest = resolution_over(outcomes.drop_first(), ani_id, title);
                (rest.0, own + rest.1)
            },
        }
    }
}

/// Finds where a show stands among the results of a search, from the
/// outcomes of the searches in the order in which they are made. The first
/// search that gives the show a place decides, and what follows it is not
/// looked at; the warnings are those of the searches up to there.
pub fn resolve_select_nth_for_item_with_diagnostics(
    item: &SeenEntry,
    outcomes: Vec<SearchEntriesFetchOutcome>,
) -> (out: SelectNthResolution)
    ensures
        out.index == resolution_over(outcome_views(outcomes@), item.ani_id@, item.title@).0,
        string_views(out.warnings@) == resolution_over(
            outcome_views(outcomes@),
            item.ani_id@,
            item.title@,
        ).1,
{
    let ghost all = outcome_views(outcomes@);
    let mut warnings: Vec<String> = Vec::new();
    let mut i: usize = 0;
    assert(all.skip(0) =~= all);
    assert(string_views(warnings@) + resolution_over(all, item.ani_id@, item.title@).1
        =~= resolution_over(all, item.ani_id@, item.title@).1);
    while i < outcomes.len()
        invariant
            i <= outcomes.len(),
            all == outcome_views(outcomes@),
            resolution_over(all, item.ani_id@, item.title@).0 == resolution_over(
                all.skip(i as int),
                item.ani_id@,
                item.title@,
            ).0,
            resolution_over(all, item.ani_id@, item.title@).1 == string_views(warnings@)
                + resolution_over(all.skip(i as int), item.ani_id@, item.title@).1,
        decreases outcomes.len() - i,
    {
        let ghost rest = all.skip(i as int);
        let ghost before = string_views(warnings@);
        proof {
            assert(rest[0] == outcome_view(outcomes@[i as int]));
            assert(rest.drop_first() =~= all.skip(i + 1));
        }
        let o = &outcomes[i];
        if let Some(w) = &o.warning {
            warnings.push(w.clone());
            assert(string_views(warnings@) =~= before.push(w@));
        }
        let found = match &o.entries {
            Some(entries) => find_select_nth_index(
                entries.as_slice(),
                item.ani_id.as_str(),
                item.title.as_str(),
            ),
            None => None,
        };
        proof {
            let own = match rest[0].1 {
                Some(w) => seq![w],
                None => Seq::<Seq<char>>::empty(),
            };
            assert(string_views(warnings@) =~= before + own);
            let tail = resolution_over(all.skip(i + 1), item.ani_id@, item.title@).1;
            assert(before + (own + tail) =~= (before + own) + tail);
            assert(before + own =~= (before + own) + Seq::<Seq<char>>::empty());
        }
        if let Some(p) = found {
            return SelectNthResolution { index: Some(p), warnings };
        }
        i += 1;
    }
    assert(all.skip(i as int) =~= Seq::empty());
    assert(string_views(warnings@) + Seq::<Seq<char>>::empty() =~= string_views(warnings@));
    SelectNthResolution { index: None, warnings }
}

/// The character that a byte behind a backslash stands for.
pub open spec fn unescaped_byte(b: u8) -> char {
    if b == 0x6e {
        '\n'
    } else if b == 0x72 {
        '\r'
    } else if b == 0x74 {
        '\t'
    } else {
        b as char
    }
}

/// The text of a JSON string that is read byte by byte from position `i`,
/// with the position behind its closing quote. A backslash makes the next
/// byte count as a character of the text; a quote without one closes the
/// string; every other byte is a character of the text. Nothing where the
/// bytes end before the string closes.
pub open spec fn string_scan(bytes: Seq<u8>, i: int, escaped: bool) -> Option<(Seq<char>, int)>
    decreases bytes.len() - i,
{
    if i < 0 || i >= bytes.len() {
        None
    } else if escaped {
        match string_scan(bytes, i + 1, false) {
            Some((rest, end)) => Some((seq![unescaped_byte(bytes[i])] + rest, end)),
            None => None,
        }
    } else if bytes[i] == 0x5c {
        string_scan(bytes, i + 1, true)
    } else if bytes[i] == 0x22 {
        Some((Seq::<char>::empty(), i + 1))
    } else {
        match string_scan(bytes, i + 1, false) {
            Some((rest, end)) => Some((seq![bytes[i] as char] + rest, end)),
            None => None,
        }
    }
}

/// What is read with `read` already in hand.
pub open spec fn scan_with(read: Seq<char>, scan: Option<(Seq<char>, int)>) -> Option<
    (Seq<char>, int),
> {
    match scan {
        Some((rest, end)) => Some((read + rest, end)),
        None => None,
    }
}

/// Reads the text of a JSON string from the bytes of `raw`, beginning
/// behind its opening quote at byte `start`, and gives the text and the
/// position behind the closing quote.
pub fn parse_json_string(raw: &str, start: usize) -> (r: Option<(String, usize)>)
    ensures
        match r {
            Some((text, end)) => string_scan(raw.spec_bytes(), start as int, false) == Some(
                (text@, end as int),
            ),
            None => string_scan(raw.spec_bytes(), start as int, false) is None,
        },
{
    let bytes = raw.as_bytes();
    let ghost b = raw.spec_bytes();
    let mut out: Vec<char> = Vec::new();
    let mut escaped = false;
    let mut i: usize = start;
    if start > bytes.len() {
        return None;
    }
    assert(scan_with(out@, string_scan(b, i as int, escaped)) =~= string_scan(
        b,
        start as int,
        false,
    )) by {
        match string_scan(b, start as int, false) {
            Some((rest, end)) => {
                assert(out@ + rest =~= rest);
            },
            None => {},
        }
    }
    while i < bytes.len()
        invariant
            i <= bytes.len(),
            bytes@ == b,
            b == raw.spec_bytes(),
            string_scan(b, start as int, false) == scan_with(
                out@,
                string_scan(b, i as int, escaped),
            ),
        decreases bytes.len() - i,
    {
        let x = bytes[i];
        let ghost before = out@;
        if escaped {
            let c: char = if x == 0x6e {
                '\n'
            } else if x == 0x72 {
                '\r'
            } else if x == 0x74 {
                '\t'
            } else {
                x as char
            };
            out.push(c);
            escaped = false;
            proof {
                match string_scan(b, i + 1, false) {
                    Some((rest, end)) => {
                        assert(before + (seq![c] + rest) =~= before.push(c) + rest);
                    },
                    None => {},
                }
            }
        } else if x == 0x5c {
            escaped = true;
        } else if x == 0x22 {
            proof {
                assert(before + Seq::<char>::empty() =~= before);
            }
            return Some((string_of(out.as_slice()), i + 1));
        } else {
            let c: char = x as char;
            out.push(c);
            proof {
                match string_scan(b, i + 1, false) {
                    Some((rest, end)) => {
                        assert(before + (seq![c] + rest) =~= before.push(c) + rest);
                    },
                    None => {},
                }
            }
        }
        i += 1;
    }
    None
}

} // verus!
