//! The playback program's history file: one entry per line, read with
//! tolerance for lines that do not parse.
use crate::detect::HistFileSig;
use crate::index::TextMap;
use crate::number::{decimal_chars, decimal_text};
use crate::text::{
    chars_of, find_char, find_char_from, first_index, join, join_from, lines, split_lines,
    split_words, string_of, trim, trim_bounds, trim_chars, views, words,
};
use vstd::prelude::*;
use vstd::slice::slice_subrange;

verus! {

/// One line of the history file: an episode label, the show's id and its title.
#[derive(Debug, Clone, PartialEq, Eq, Hash)]
pub struct HistEntry {
    pub ep: String,
    pub id: String,
    pub title: String,
}

/// What a `HistEntry` stands for: its three texts.
pub struct Entry {
    pub ep: Seq<char>,
    pub id: Seq<char>,
    pub title: Seq<char>,
}

impl View for HistEntry {
    type V = Entry;

    open spec fn view(&self) -> Entry {
        Entry { ep: self.ep@, id: self.id@, title: self.title@ }
    }
}

impl HistEntry {
    /// A copy with the same three texts.
    pub fn duplicate(&self) -> (out: HistEntry)
        ensures
            out@ == self@,
    {
        HistEntry { ep: self.ep.clone(), id: self.id.clone(), title: self.title.clone() }
    }

    /// Whether two entries hold the same three texts.
    pub fn same_as(&self, other: &HistEntry) -> (b: bool)
        ensures
            b == (self@ == other@),
    {
        self.ep == other.ep && self.id == other.id && self.title == other.title
    }
}

/// The views of a sequence of entries.
pub open spec fn entry_views(v: Seq<HistEntry>) -> Seq<Entry> {
    v.map_values(|e: HistEntry| e@)
}

/// An entry, unless one of its fields is empty.
pub open spec fn complete(e: Entry) -> Option<Entry> {
    if e.ep.len() == 0 || e.id.len() == 0 || e.title.len() == 0 {
        None
    } else {
        Some(e)
    }
}

/// A trimmed line that holds a tab: three fields, cut at its first two tabs,
/// each trimmed and none empty.
pub open spec fn parse_tabbed(t: Seq<char>, first_tab: int) -> Option<Entry> {
    let rest = t.skip(first_tab + 1);
    match first_index(rest, '\t') {
        None => None,
        Some(j) => complete(
            Entry {
                ep: trim(t.take(first_tab)),
                id: trim(rest.take(j)),
                title: trim(rest.skip(j + 1)),
            },
        ),
    }
}

/// A trimmed line without a tab: the first word, the second word, and the
/// remaining words with one space between them.
pub open spec fn parse_spaced(t: Seq<char>) -> Option<Entry> {
    let w = words(t);
    if w.len() < 3 {
        None
    } else {
        Some(Entry { ep: w[0], id: w[1], title: join(w.skip(2), seq![' ']) })
    }
}

/// The entry that a line of the history file holds, if it holds one.
pub open spec fn parse_line(line: Seq<char>) -> Option<Entry> {
    let t = trim(line);
    if t.len() == 0 {
        None
    } else {
        match first_index(t, '\t') {
            Some(i) => parse_tabbed(t, i),
            None => parse_spaced(t),
        }
    }
}

/// The entries of the lines that parse, in the order of the lines.
pub open spec fn parsed_entries(ls: Seq<Seq<char>>) -> Seq<Entry>
    decreases ls.len(),
{
    if ls.len() == 0 {
        Seq::<Entry>::empty()
    } else {
        match parse_line(ls.last()) {
            Some(e) => parsed_entries(ls.drop_last()).push(e),
            None => parsed_entries(ls.drop_last()),
        }
    }
}

/// How many lines are not blank and still hold no entry.
pub open spec fn skipped_lines(ls: Seq<Seq<char>>) -> nat
    decreases ls.len(),
{
    if ls.len() == 0 {
        0
    } else if parse_line(ls.last()) is None && trim(ls.last()).len() > 0 {
        skipped_lines(ls.drop_last()) + 1
    } else {
        skipped_lines(ls.drop_last())
    }
}

/// How many lines are not blank.
pub open spec fn non_blank_lines(ls: Seq<Seq<char>>) -> nat
    decreases ls.len(),
{
    if ls.len() == 0 {
        0
    } else if trim(ls.last()).len() > 0 {
        non_blank_lines(ls.drop_last()) + 1
    } else {
        non_blank_lines(ls.drop_last())
    }
}

/// For each show id, the last entry of the sequence that carries it.
pub open spec fn latest_by_id(entries: Seq<Entry>) -> Map<Seq<char>, Entry>
    decreases entries.len(),
{
    if entries.len() == 0 {
        Map::empty()
    } else {
        latest_by_id(entries.drop_last()).insert(entries.last().id, entries.last())
    }
}

/// Every line that is not blank either gives an entry or is counted as skipped,
/// and never both.
pub proof fn lemma_lines_accounted(ls: Seq<Seq<char>>)
    ensures
        skipped_lines(ls) + parsed_entries(ls).len() == non_blank_lines(ls),
        parsed_entries(ls).len() <= ls.len(),
        skipped_lines(ls) <= ls.len(),
    decreases ls.len(),
{
    if ls.len() > 0 {
        lemma_lines_accounted(ls.drop_last());
    }
}

/// For every text of a history file, the skipped lines and the parsed entries
/// together are exactly the lines that are not blank.
pub proof fn lemma_ledger_accounts_for_every_line(raw: Seq<char>)
    ensures
        skipped_lines(lines(raw)) + parsed_entries(lines(raw)).len() == non_blank_lines(
            lines(raw),
        ),
{
    lemma_lines_accounted(lines(raw));
}

fn parse_line_chars(line: &[char]) -> (out: Option<HistEntry>)
    ensures
        match out {
            Some(e) => parse_line(line@) == Some(e@),
            None => parse_line(line@) is None,
        },
{
    let (a, b) = trim_bounds(line);
    let t = slice_subrange(line, a, b);
    if t.len() == 0 {
        return None;
    }
    match find_char(t, '\t') {
        Some(i) => {
            match find_char_from(t, '\t', i + 1) {
                None => None,
                Some(j) => {
                    let ghost rest = t@.skip(i + 1);
                    let n = t.len();
                    let ep = trim_chars(slice_subrange(t, 0, i));
                    let id = trim_chars(slice_subrange(t, i + 1, j));
                    let title = trim_chars(slice_subrange(t, j + 1, n));
                    proof {
                        assert(t@.subrange(0, i as int) =~= t@.take(i as int));
                        assert(t@.subrange(i + 1, j as int) =~= rest.take(j - (i + 1)));
                        assert(t@.subrange(j + 1, n as int) =~= rest.skip(j - (i + 1) + 1));
                    }
                    if ep.len() == 0 || id.len() == 0 || title.len() == 0 {
                        None
                    } else {
                        Some(
                            HistEntry {
                                ep: string_of(ep.as_slice()),
                                id: string_of(id.as_slice()),
                                title: string_of(title.as_slice()),
                            },
                        )
                    }
                },
            }
        },
        None => {
            let w = split_words(t);
            if w.len() < 3 {
                None
            } else {
                let sep: [char; 1] = [' '];
                assert(sep@ =~= seq![' ']);
                let title = join_from(&w, 2, sep.as_slice());
                assert(views(w@)[0] == w@[0]@ && views(w@)[1] == w@[1]@);
                Some(
                    HistEntry {
                        ep: string_of(w[0].as_slice()),
                        id: string_of(w[1].as_slice()),
                        title: string_of(title.as_slice()),
                    },
                )
            }
        },
    }
}

/// Reads one line of the history file.
///
/// The line is trimmed. With a tab in it, it is cut at its first two tabs into
/// episode, show id and title, each trimmed; without one, its first two words
/// are episode and show id and the other words, joined by single spaces, are
/// the title. A line with an empty field gives nothing.
pub fn parse_hist_line(line: &str) -> (out: Option<HistEntry>)
    ensures
        match out {
            Some(e) => parse_line(line@) == Some(e@),
            None => parse_line(line@) is None,
        },
{
    let chars = chars_of(line);
    parse_line_chars(chars.as_slice())
}

/// Reads the text of a history file: the last entry of each show id, the
/// entries in file order, and the number of lines that were not blank and
/// held no entry.
pub fn parse_hist_map(raw: &str) -> (out: (TextMap<HistEntry>, Vec<HistEntry>, usize))
    ensures
        out.0.wf(),
        out.0@ == latest_by_id(parsed_entries(lines(raw@))),
        entry_views(out.1@) == parsed_entries(lines(raw@)),
        out.2 == skipped_lines(lines(raw@)),
        out.2 + out.1@.len() == non_blank_lines(lines(raw@)),
{
    let chars = chars_of(raw);
    let ls = split_lines(chars.as_slice());
    let ghost all = lines(raw@);
    let mut map: TextMap<HistEntry> = TextMap::new();
    let mut ordered: Vec<HistEntry> = Vec::new();
    let mut skipped: usize = 0;
    let mut k: usize = 0;
    assert(entry_views(ordered@) =~= parsed_entries(all.take(0)));
    while k < ls.len()
        invariant
            k <= ls.len(),
            views(ls@) == all,
            map.wf(),
            map@ == latest_by_id(parsed_entries(all.take(k as int))),
            entry_views(ordered@) == parsed_entries(all.take(k as int)),
            skipped == skipped_lines(all.take(k as int)),
        decreases ls.len() - k,
    {
        let line = ls[k].as_slice();
        proof {
            assert(all.take(k + 1).drop_last() =~= all.take(k as int));
            assert(all.take(k + 1).last() == line@);
            lemma_lines_accounted(all.take(k + 1));
        }
        match parse_line_chars(line) {
            Some(entry) => {
                let ghost prev = entry_views(ordered@);
                ordered.push(entry.duplicate());
                assert(entry_views(ordered@) =~= prev.push(entry@));
                assert(prev.push(entry@).drop_last() =~= prev);
                map.insert(entry.id.clone(), entry);
            },
            None => {
                let (a, b) = trim_bounds(line);
                if a != b {
                    skipped += 1;
                }
            },
        }
        k += 1;
    }
    proof {
        assert(all.take(k as int) =~= all);
        lemma_lines_accounted(all);
    }
    (map, ordered, skipped)
}

/// What was found where the history file should be.
#[derive(Debug, Clone)]
pub enum LedgerFile {
    /// There is no file.
    Missing,
    /// There is a file, and reading it failed with this error.
    Unreadable(String),
    /// The text of the file.
    Text(String),
}

/// The history file as it was read at one moment: the last entry of each
/// show, the entries in file order, what went wrong on the way, and the
/// file's length and modification time where it has them.
pub struct HistorySnapshot {
    pub entries: TextMap<HistEntry>,
    pub ordered_entries: Vec<HistEntry>,
    pub warnings: Vec<String>,
    pub signature: Option<HistFileSig>,
}

/// The texts of a sequence of strings.
pub open spec fn string_views(v: Seq<String>) -> Seq<Seq<char>> {
    v.map_values(|s: String| s@)
}

/// The warnings that reading a history file gives: none for a missing file,
/// one that names the error for an unreadable file, and for a file with
/// lines that hold no entry one that counts them all.
pub open spec fn read_warnings(path: Seq<char>, file: LedgerFile) -> Seq<Seq<char>> {
    match file {
        LedgerFile::Missing => Seq::empty(),
        LedgerFile::Unreadable(err) => seq![
            "failed to read ani-cli history at "@ + path + ": "@ + err@,
        ],
        LedgerFile::Text(raw) => if skipped_lines(lines(raw@)) > 0 {
            seq![
                "ignored "@ + decimal_text(skipped_lines(lines(raw@))) + " malformed line(s) in "@
                    + path,
            ]
        } else {
            Seq::empty()
        },
    }
}

/// The entries that reading a history file gives: those of its text, none
/// without a text.
pub open spec fn read_entries(file: LedgerFile) -> Seq<Entry> {
    match file {
        LedgerFile::Text(raw) => parsed_entries(lines(raw@)),
        _ => Seq::empty(),
    }
}

/// Reads the history file into a snapshot. Nothing that can be wrong with
/// the file makes this fail: a missing file gives an empty snapshot, an
/// unreadable one an empty snapshot with a warning, and lines that hold no
/// entry are counted in one warning.
pub fn read_hist_map(path: &str, file: LedgerFile, signature: Option<HistFileSig>) -> (out:
    HistorySnapshot)
    ensures
        out.entries.wf(),
        entry_views(out.ordered_entries@) == read_entries(file),
        out.entries@ == latest_by_id(read_entries(file)),
        string_views(out.warnings@) == read_warnings(path@, file),
        out.signature == signature,
{
    let mut warnings: Vec<String> = Vec::new();
    match file {
        LedgerFile::Missing => {
            let ordered: Vec<HistEntry> = Vec::new();
            assert(entry_views(ordered@) =~= Seq::<Entry>::empty());
            assert(string_views(warnings@) =~= Seq::<Seq<char>>::empty());
            HistorySnapshot {
                entries: TextMap::new(),
                ordered_entries: ordered,
                warnings,
                signature,
            }
        },
        LedgerFile::Unreadable(err) => {
            let mut w = String::from_str("failed to read ani-cli history at ");
            w.append(path);
            w.append(": ");
            w.append(err.as_str());
            warnings.push(w);
            let ordered: Vec<HistEntry> = Vec::new();
            assert(entry_views(ordered@) =~= Seq::<Entry>::empty());
            assert(string_views(warnings@) =~= seq![
                "failed to read ani-cli history at "@ + path@ + ": "@ + err@,
            ]);
            HistorySnapshot {
                entries: TextMap::new(),
                ordered_entries: ordered,
                warnings,
                signature,
            }
        },
        LedgerFile::Text(raw) => {
            let (entries, ordered, skipped) = parse_hist_map(raw.as_str());
            if skipped > 0 {
                let mut w = String::from_str("ignored ");
                let count = string_of(decimal_chars(skipped as u128).as_slice());
                w.append(count.as_str());
                w.append(" malformed line(s) in ");
                w.append(path);
                warnings.push(w);
                assert(string_views(warnings@) =~= seq![
                    "ignored "@ + decimal_text(skipped as nat) + " malformed line(s) in "@ + path@,
                ]);
            } else {
                assert(string_views(warnings@) =~= Seq::<Seq<char>>::empty());
            }
            HistorySnapshot { entries, ordered_entries: ordered, warnings, signature }
        },
    }
}

/// A message with each warning added on a line of its own.
pub open spec fn with_warnings(message: Seq<char>, warnings: Seq<Seq<char>>) -> Seq<char>
    decreases warnings.len(),
{
    if warnings.len() == 0 {
        message
    } else {
        with_warnings(message, warnings.drop_last()) + "\nWarning: "@ + warnings.last()
    }
}

/// Adds each warning to the message, on a line of its own.
pub fn append_history_warnings(message: &mut String, warnings: &[String])
    ensures
        final(message)@ == with_warnings(old(message)@, string_views(warnings@)),
{
    let ghost all = string_views(warnings@);
    let mut i: usize = 0;
    assert(all.take(0) =~= Seq::<Seq<char>>::empty());
    while i < warnings.len()
        invariant
            i <= warnings.len(),
            all == string_views(warnings@),
            message@ == with_warnings(old(message)@, all.take(i as int)),
        decreases warnings.len() - i,
    {
        proof {
            assert(all.take(i + 1).drop_last() =~= all.take(i as int));
            assert(all.take(i + 1).last() == warnings@[i as int]@);
        }
        message.append("\nWarning: ");
        message.append(warnings[i].as_str());
        i += 1;
    }
    assert(all.take(i as int) =~= all);
}

} // verus!
