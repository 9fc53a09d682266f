//! The system log as a witness: the playback program logs a line with the
//! title and the episode it plays, and that line is matched against the
//! entries of the history file.
use crate::decimal::zeros;
use crate::ledger::{entry_views, Entry, HistEntry};
use crate::number::{bounded_value, digits_value, is_digit, parse_u128_chars};
use crate::text::{
    append_chars, chars_eq, chars_of, collapse_chars, collapse_whitespace, find_char,
    first_index, lines, occurs_at, occurs_at_index, split_lines, string_of, trim, trim_chars,
    views,
};
use vstd::prelude::*;
use vstd::slice::slice_subrange;

verus! {

/// The ASCII punctuation characters.
pub open spec fn is_ascii_punctuation(c: char) -> bool {
    ||| ('\u{21}' <= c && c <= '\u{2f}')
    ||| ('\u{3a}' <= c && c <= '\u{40}')
    ||| ('\u{5b}' <= c && c <= '\u{60}')
    ||| ('\u{7b}' <= c && c <= '\u{7e}')
}

/// `s` without its ASCII punctuation.
pub open spec fn without_punctuation(s: Seq<char>) -> Seq<char>
    decreases s.len(),
{
    if s.len() == 0 {
        Seq::<char>::empty()
    } else if is_ascii_punctuation(s.last()) {
        without_punctuation(s.drop_last())
    } else {
        without_punctuation(s.drop_last()).push(s.last())
    }
}

/// The key under which texts are compared with log messages: without ASCII
/// punctuation, and with its words separated by single spaces. Upper and
/// lower case stay apart.
pub open spec fn log_key_text(raw: Seq<char>) -> Seq<char> {
    collapse_whitespace(without_punctuation(raw))
}

/// The part of a title before its first `(`; the whole title without one.
pub open spec fn title_before_bracket(title: Seq<char>) -> Seq<char> {
    match first_index(title, '(') {
        Some(i) => title.take(i),
        None => title,
    }
}

/// The key of a history entry: of its title before the first `(`, a space,
/// and its trimmed episode.
pub open spec fn entry_log_key(title: Seq<char>, episode: Seq<char>) -> Seq<char> {
    log_key_text(title_before_bracket(title) + seq![' '] + trim(episode))
}

/// Position `i` is the last entry whose key is `target`.
pub open spec fn is_last_keyed(after: Seq<Entry>, target: Seq<char>, i: int) -> bool {
    &&& 0 <= i < after.len()
    &&& entry_log_key(after[i].title, after[i].ep) == target
    &&& forall|k: int|
        i < k < after.len() ==> entry_log_key((#[trigger] after[k]).title, after[k].ep) != target
}

/// The last entry whose key is the key of the message.
pub open spec fn log_matched_entry(message: Seq<char>, after: Seq<Entry>) -> Option<Entry> {
    let target = log_key_text(message);
    let i = choose|i: int| is_last_keyed(after, target, i);
    if is_last_keyed(after, target, i) {
        Some(after[i])
    } else {
        None
    }
}

/// `n` is the number of digits that `s` begins with.
pub open spec fn is_digit_run(s: Seq<char>, n: int) -> bool {
    &&& 0 <= n <= s.len()
    &&& forall|i: int| 0 <= i < n ==> is_digit(#[trigger] s[i])
    &&& n < s.len() ==> !is_digit(s[n])
}

/// The nanoseconds that the text after the point of a timestamp writes: its
/// leading digits, cut or filled with zeros to nine.
pub open spec fn fraction_nanos(f: Seq<char>) -> nat {
    let n = choose|n: int| is_digit_run(f, n);
    let kept = if n >= 9 {
        f.take(9)
    } else {
        f.take(n)
    };
    digits_value(kept + zeros((9 - kept.len()) as nat))
}

/// A number kept to 128 bits: what is above the largest becomes the largest.
pub open spec fn saturated(n: nat) -> u128 {
    if n > u128::MAX {
        u128::MAX
    } else {
        n as u128
    }
}

/// The nanoseconds since the epoch that a timestamp of seconds, with or
/// without a fraction after a point, writes.
pub open spec fn short_unix_ns(raw: Seq<char>) -> Option<u128> {
    let (secs, frac) = match first_index(raw, '.') {
        Some(i) => (raw.take(i), raw.skip(i + 1)),
        None => (raw, Seq::<char>::empty()),
    };
    match bounded_value(secs, u128::MAX as nat) {
        Some(s) => Some(
            saturated(saturated(s * 1_000_000_000) as nat + fraction_nanos(frac)),
        ),
        None => None,
    }
}

/// `i` is the first position at which `p` occurs in `s`.
pub open spec fn is_first_occurrence(s: Seq<char>, p: Seq<char>, i: int) -> bool {
    &&& occurs_at(s, p, i)
    &&& forall|j: int| 0 <= j < i ==> !occurs_at(s, p, j)
}

/// The first position at which `p` occurs in `s`.
pub open spec fn first_occurrence(s: Seq<char>, p: Seq<char>) -> Option<int> {
    let i = choose|i: int| is_first_occurrence(s, p, i);
    if is_first_occurrence(s, p, i) {
        Some(i)
    } else {
        None
    }
}

/// The time and the message of a line of the system log: the line begins
/// with a timestamp and a space, and the message is what follows the first
/// colon and space after that, trimmed.
pub open spec fn journal_line(line: Seq<char>) -> Option<(u128, Seq<char>)> {
    match first_index(line, ' ') {
        Some(i) => match short_unix_ns(line.take(i)) {
            Some(ts) => {
                let rest = line.skip(i + 1);
                match first_occurrence(rest, ": "@) {
                    Some(j) => Some((ts, trim(rest.skip(j + ": "@.len())))),
                    None => None,
                }
            },
            None => None,
        },
        None => None,
    }
}

/// The messages of the lines that parse and whose time lies in the window,
/// in the order of the lines.
pub open spec fn window_messages(ls: Seq<Seq<char>>, from: u128, until: u128) -> Seq<Seq<char>>
    decreases ls.len(),
{
    if ls.len() == 0 {
        Seq::<Seq<char>>::empty()
    } else {
        match journal_line(ls.last()) {
            Some((ts, msg)) if from <= ts && ts <= until => window_messages(
                ls.drop_last(),
                from,
                until,
            ).push(msg),
            _ => window_messages(ls.drop_last(), from, until),
        }
    }
}

/// Position `i` is the last message that matches an entry.
pub open spec fn is_last_matching(msgs: Seq<Seq<char>>, after: Seq<Entry>, i: int) -> bool {
    &&& 0 <= i < msgs.len()
    &&& log_matched_entry(msgs[i], after) is Some
    &&& forall|k: int| i < k < msgs.len() ==> log_matched_entry(#[trigger] msgs[k], after) is None
}

/// The entry that the newest matching message names.
pub open spec fn newest_match(msgs: Seq<Seq<char>>, after: Seq<Entry>) -> Option<Entry> {
    let i = choose|i: int| is_last_matching(msgs, after, i);
    if is_last_matching(msgs, after, i) {
        log_matched_entry(msgs[i], after)
    } else {
        None
    }
}

/// The end of the window in which log lines count: five seconds after the
/// run ended, for the playback program may log a little late.
pub open spec fn window_end(end_ns: u128) -> u128 {
    saturated(end_ns as nat + 5_000_000_000)
}

/// The watched entry as the system log shows it: of the log lines between
/// the start of the run and five seconds after its end, the newest whose
/// message matches an entry of the history file.
pub open spec fn watch_event_from_logs(
    journal: Seq<char>,
    start_ns: u128,
    end_ns: u128,
    after: Seq<Entry>,
) -> Option<Entry> {
    newest_match(window_messages(lines(journal), start_ns, window_end(end_ns)), after)
}

fn char_is_ascii_punctuation(c: char) -> (b: bool)
    ensures
        b == is_ascii_punctuation(c),
{
    ('\u{21}' <= c && c <= '\u{2f}') || ('\u{3a}' <= c && c <= '\u{40}') || ('\u{5b}' <= c && c
        <= '\u{60}') || ('\u{7b}' <= c && c <= '\u{7e}')
}

/// The key of a text, over characters.
pub fn log_key_chars(raw: &[char]) -> (out: Vec<char>)
    ensures
        out@ == log_key_text(raw@),
{
    let mut kept: Vec<char> = Vec::new();
    let mut i: usize = 0;
    assert(raw@.take(0) =~= Seq::<char>::empty());
    while i < raw.len()
        invariant
            i <= raw.len(),
            kept@ == without_punctuation(raw@.take(i as int)),
        decreases raw.len() - i,
    {
        proof {
            assert(raw@.take(i + 1).drop_last() =~= raw@.take(i as int));
            assert(raw@.take(i + 1).last() == raw@[i as int]);
        }
        if !char_is_ascii_punctuation(raw[i]) {
            kept.push(raw[i]);
        }
        i += 1;
    }
    assert(raw@.take(i as int) =~= raw@);
    collapse_chars(kept.as_slice())
}

/// The key under which a text is compared with log messages.
pub fn normalize_log_key(raw: &str) -> (out: String)
    ensures
        out@ == log_key_text(raw@),
{
    let c = chars_of(raw);
    string_of(log_key_chars(c.as_slice()).as_slice())
}

/// The key of a history entry, over characters.
pub fn entry_log_key_chars(title: &[char], episode: &[char]) -> (out: Vec<char>)
    ensures
        out@ == entry_log_key(title@, episode@),
{
    let cut: usize = match find_char(title, '(') {
        Some(i) => i,
        None => title.len(),
    };
    let mut raw: Vec<char> = Vec::new();
    append_chars(&mut raw, slice_subrange(title, 0, cut));
    raw.push(' ');
    let ep = trim_chars(episode);
    append_chars(&mut raw, ep.as_slice());
    proof {
        assert(title@.subrange(0, cut as int) =~= title_before_bracket(title@));
        assert(raw@ =~= title_before_bracket(title@) + seq![' '] + trim(episode@));
    }
    log_key_chars(raw.as_slice())
}

/// The key of a history entry as the playback program logs it: its title
/// before the first `(`, a space and its episode, without punctuation.
pub fn ani_cli_log_key(title: &str, episode: &str) -> (out: String)
    ensures
        out@ == entry_log_key(title@, episode@),
{
    let t = chars_of(title);
    let e = chars_of(episode);
    string_of(entry_log_key_chars(t.as_slice(), e.as_slice()).as_slice())
}

fn matched_entry_chars(message: &[char], after_ordered: &[HistEntry]) -> (out: Option<HistEntry>)
    ensures
        match out {
            Some(e) => log_matched_entry(message@, entry_views(after_ordered@)) == Some(e@),
            None => log_matched_entry(message@, entry_views(after_ordered@)) is None,
        },
{
    let target = log_key_chars(message);
    let ghost after = entry_views(after_ordered@);
    let n = after_ordered.len();
    let mut i: usize = n;
    while i > 0
        invariant
            i <= n == after_ordered.len(),
            after == entry_views(after_ordered@),
            target@ == log_key_text(message@),
            forall|k: int|
                i <= k < n ==> entry_log_key((#[trigger] after[k]).title, after[k].ep)
                    != target@,
        decreases i,
    {
        i -= 1;
        let entry = &after_ordered[i];
        let t = chars_of(entry.title.as_str());
        let e = chars_of(entry.ep.as_str());
        let key = entry_log_key_chars(t.as_slice(), e.as_slice());
        assert(after[i as int] == entry@);
        if chars_eq(key.as_slice(), target.as_slice()) {
            proof {
                assert(is_last_keyed(after, target@, i as int));
                let c = choose|c: int| is_last_keyed(after, target@, c);
                assert(c == i);
            }
            return Some(entry.duplicate());
        }
    }
    None
}

/// The last entry of the history file that a log message names: the one
/// whose key is the key of the message.
pub fn detect_log_matched_entry(message: &str, after_ordered: &[HistEntry]) -> (out: Option<
    HistEntry,
>)
    ensures
        match out {
            Some(e) => log_matched_entry(message@, entry_views(after_ordered@)) == Some(e@),
            None => log_matched_entry(message@, entry_views(after_ordered@)) is None,
        },
{
    let m = chars_of(message);
    matched_entry_chars(m.as_slice(), after_ordered)
}

fn fraction_nanos_chars(f: &[char]) -> (r: u128)
    ensures
        r == fraction_nanos(f@),
        r < 1_000_000_000,
{
    let mut n: usize = 0;
    while n < f.len() && n < 9 && '0' <= f[n] && f[n] <= '9'
        invariant
            n <= f.len(),
            n <= 9,
            forall|i: int| 0 <= i < n ==> is_digit(#[trigger] f@[i]),
        decreases f.len() - n,
    {
        n += 1;
    }
    let ghost run = choose|r: int| is_digit_run(f@, r);
    let ghost kept = f@.take(n as int);
    proof {
        if n < 9 {
            assert(is_digit_run(f@, n as int));
            assert(is_digit_run(f@, run));
            assert(run == n) by {
                if run < n {
                    assert(is_digit(f@[run]));
                }
                if run > n {
                    assert(is_digit(f@[n as int]));
                }
            }
        } else {
            assert(exists|r: int| is_digit_run(f@, r)) by {
                lemma_digit_run_exists(f@, 9);
            }
            assert(is_digit_run(f@, run));
            if run < 9 {
                assert(is_digit(f@[run]));
            }
            assert(run >= 9);
        }
    }
    let ghost padded = kept + zeros((9 - kept.len()) as nat);
    let mut acc: u128 = 0;
    let mut i: usize = 0;
    assert(padded.take(0) =~= Seq::<char>::empty());
    while i < 9
        invariant
            i <= 9,
            n <= 9,
            n <= f.len(),
            kept == f@.take(n as int),
            padded == kept + zeros((9 - kept.len()) as nat),
            forall|k: int| 0 <= k < n ==> is_digit(#[trigger] f@[k]),
            acc == digits_value(padded.take(i as int)),
            acc < pow10_bound(i as nat),
        decreases 9 - i,
    {
        proof {
            assert(padded.take(i + 1).drop_last() =~= padded.take(i as int));
        }
        let d: u128 = if i < n {
            assert(padded.take(i + 1).last() == f@[i as int]);
            assert(is_digit(f@[i as int]));
            ((f[i] as u32) - ('0' as u32)) as u128
        } else {
            assert(padded.take(i + 1).last() == '0');
            0
        };
        acc = acc * 10 + d;
        i += 1;
    }
    assert(padded.take(9) =~= padded);
    acc
}

/// A bound on the number written by `k` digits, for `k` up to nine.
pub open spec fn pow10_bound(k: nat) -> nat {
    if k == 0 {
        1
    } else if k == 1 {
        10
    } else if k == 2 {
        100
    } else if k == 3 {
        1_000
    } else if k == 4 {
        10_000
    } else if k == 5 {
        100_000
    } else if k == 6 {
        1_000_000
    } else if k == 7 {
        10_000_000
    } else if k == 8 {
        100_000_000
    } else {
        1_000_000_000
    }
}

proof fn lemma_digit_run_exists(s: Seq<char>, k: int)
    requires
        0 <= k <= s.len(),
        forall|i: int| 0 <= i < k ==> is_digit(#[trigger] s[i]),
    ensures
        exists|r: int| is_digit_run(s, r),
    decreases s.len() - k,
{
    if k == s.len() || !is_digit(s[k]) {
        assert(is_digit_run(s, k));
    } else {
        lemma_digit_run_exists(s, k + 1);
    }
}

fn short_unix_ns_chars(raw: &[char]) -> (r: Option<u128>)
    ensures
        r == short_unix_ns(raw@),
{
    let n = raw.len();
    let (secs, frac) = match find_char(raw, '.') {
        Some(i) => {
            assert(raw@.subrange(0, i as int) =~= raw@.take(i as int));
            assert(raw@.subrange(i + 1, n as int) =~= raw@.skip(i + 1));
            (slice_subrange(raw, 0, i), slice_subrange(raw, i + 1, n))
        },
        None => {
            assert(raw@.subrange(0, n as int) =~= raw@);
            assert(raw@.subrange(n as int, n as int) =~= Seq::<char>::empty());
            (slice_subrange(raw, 0, n), slice_subrange(raw, n, n))
        },
    };
    match parse_u128_chars(secs) {
        None => None,
        Some(s) => {
            let nanos = fraction_nanos_chars(frac);
            let scaled: u128 = if s > u128::MAX / 1_000_000_000 {
                assert(s * 1_000_000_000 > u128::MAX) by (nonlinear_arith)
                    requires
                        s > u128::MAX / 1_000_000_000,
                ;
                u128::MAX
            } else {
                assert(s * 1_000_000_000 <= u128::MAX) by (nonlinear_arith)
                    requires
                        s <= u128::MAX / 1_000_000_000,
                ;
                s * 1_000_000_000
            };
            let total: u128 = if scaled > u128::MAX - nanos {
                u128::MAX
            } else {
                scaled + nanos
            };
            Some(total)
        },
    }
}

/// Reads a timestamp of seconds since the epoch, with or without a fraction,
/// as nanoseconds.
pub fn parse_short_unix_ts_ns(raw: &str) -> (r: Option<u128>)
    ensures
        r == short_unix_ns(raw@),
{
    let c = chars_of(raw);
    short_unix_ns_chars(c.as_slice())
}

/// The first position at which `p` occurs in `s`.
pub fn find_text(s: &[char], p: &[char]) -> (r: Option<usize>)
    ensures
        match r {
            Some(i) => first_occurrence(s@, p@) == Some(i as int) && i + p@.len() <= s@.len(),
            None => first_occurrence(s@, p@) is None,
        },
{
    let mut i: usize = 0;
    while i < s.len()
        invariant
            i <= s.len(),
            forall|j: int| 0 <= j < i ==> !occurs_at(s@, p@, j),
        decreases s.len() - i,
    {
        if occurs_at_index(s, p, i) {
            proof {
                assert(is_first_occurrence(s@, p@, i as int));
                let c = choose|c: int| is_first_occurrence(s@, p@, c);
                assert(c == i);
            }
            return Some(i);
        }
        i += 1;
    }
    if occurs_at_index(s, p, i) {
        proof {
            assert(is_first_occurrence(s@, p@, i as int));
            let c = choose|c: int| is_first_occurrence(s@, p@, c);
            assert(c == i);
        }
        return Some(i);
    }
    proof {
        let c = choose|c: int| is_first_occurrence(s@, p@, c);
        if is_first_occurrence(s@, p@, c) {
            assert(0 <= c <= s@.len());
        }
    }
    None
}

fn journal_line_chars(line: &[char]) -> (r: Option<(u128, Vec<char>)>)
    ensures
        match r {
            Some((ts, msg)) => journal_line(line@) == Some((ts, msg@)),
            None => journal_line(line@) is None,
        },
{
    let n = line.len();
    let i = match find_char(line, ' ') {
        Some(i) => i,
        None => {
            return None;
        },
    };
    assert(line@.subrange(0, i as int) =~= line@.take(i as int));
    assert(line@.subrange(i + 1, n as int) =~= line@.skip(i + 1));
    let ts = match short_unix_ns_chars(slice_subrange(line, 0, i)) {
        Some(ts) => ts,
        None => {
            return None;
        },
    };
    let rest = slice_subrange(line, i + 1, n);
    let mark = chars_of(": ");
    match find_text(rest, mark.as_slice()) {
        Some(j) => {
            let m = rest.len();
            assert(rest@.subrange(j + mark@.len(), m as int) =~= rest@.skip(j + ": "@.len()));
            Some((ts, trim_chars(slice_subrange(rest, j + mark.len(), m))))
        },
        None => None,
    }
}

/// Reads a line of the system log: its time in nanoseconds and its message.
pub fn parse_journal_ani_cli_line(line: &str) -> (r: Option<(u128, String)>)
    ensures
        match r {
            Some((ts, msg)) => journal_line(line@) == Some((ts, msg@)),
            None => journal_line(line@) is None,
        },
{
    let c = chars_of(line);
    match journal_line_chars(c.as_slice()) {
        Some((ts, msg)) => Some((ts, string_of(msg.as_slice()))),
        None => None,
    }
}

/// The window of whole seconds to ask the system log for: from the second
/// in which the run began to five seconds after the one in which it ended.
pub fn journal_window(start_ns: u128, end_ns: u128) -> (r: (u128, u128))
    ensures
        r.0 == start_ns / 1_000_000_000,
        r.1 == end_ns / 1_000_000_000 + 5,
{
    (start_ns / 1_000_000_000, end_ns / 1_000_000_000 + 5)
}

/// The watched entry as the system log shows it. `journal` is what the
/// system log printed for the window of the run, or nothing where it could
/// not be asked. Of its lines between the start of the run and five seconds
/// after its end, the newest whose message names an entry of the history
/// file decides.
pub fn detect_latest_watch_event_from_logs(
    start_ns: u128,
    end_ns: u128,
    after_ordered: &[HistEntry],
    journal: Option<&str>,
) -> (out: Option<HistEntry>)
    ensures
        match journal {
            Some(text) => match out {
                Some(e) => watch_event_from_logs(
                    text@,
                    start_ns,
                    end_ns,
                    entry_views(after_ordered@),
                ) == Some(e@),
                None => watch_event_from_logs(
                    text@,
                    start_ns,
                    end_ns,
                    entry_views(after_ordered@),
                ) is None,
            },
            None => out is None,
        },
{
    let text = match journal {
        Some(t) => t,
        None => {
            return None;
        },
    };
    let until: u128 = if end_ns > u128::MAX - 5_000_000_000 {
        u128::MAX
    } else {
        end_ns + 5_000_000_000
    };
    let c = chars_of(text);
    let ls = split_lines(c.as_slice());
    let ghost all = lines(text@);
    let ghost after = entry_views(after_ordered@);
    let mut messages: Vec<Vec<char>> = Vec::new();
    let mut k: usize = 0;
    assert(views(messages@) =~= window_messages(all.take(0), start_ns, until));
    while k < ls.len()
        invariant
            k <= ls.len(),
            views(ls@) == all,
            until == window_end(end_ns),
            views(messages@) == window_messages(all.take(k as int), start_ns, until),
        decreases ls.len() - k,
    {
        proof {
            assert(all.take(k + 1).drop_last() =~= all.take(k as int));
            assert(all.take(k + 1).last() == ls@[k as int]@);
        }
        match journal_line_chars(ls[k].as_slice()) {
            Some((ts, msg)) => {
                if start_ns <= ts && ts <= until {
                    let ghost prev = views(messages@);
                    messages.push(msg);
                    assert(views(messages@) =~= prev.push(msg@));
                }
            },
            None => {},
        }
        k += 1;
    }
    assert(all.take(k as int) =~= all);
    let ghost msgs = views(messages@);
    let n = messages.len();
    let mut i: usize = n;
    while i > 0
        invariant
            i <= n == messages.len(),
            msgs == views(messages@),
            journal == Some(text),
            after == entry_views(after_ordered@),
            msgs == window_messages(lines(text@), start_ns, window_end(end_ns)),
            forall|j: int| i <= j < n ==> log_matched_entry(#[trigger] msgs[j], after) is None,
        decreases i,
    {
        i -= 1;
        assert(msgs[i as int] == messages@[i as int]@);
        match matched_entry_chars(messages[i].as_slice(), after_ordered) {
            Some(entry) => {
                proof {
                    assert(is_last_matching(msgs, after, i as int));
                    let c = choose|c: int| is_last_matching(msgs, after, c);
                    assert(c == i);
                }
                return Some(entry);
            },
            None => {},
        }
    }
    None
}

} // verus!
