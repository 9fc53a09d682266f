//! Show titles as the playback program writes them: a name that may end in
//! a note such as `(12 episodes)`.
use crate::number::{bounded_value, parse_u32_chars};
use crate::text::{
    chars_of, contains_text, copy_range, ends_with, has_suffix, has_text, last_index,
    rfind_char, string_of, trim, trim_bounds, trim_chars,
};
use vstd::prelude::*;
use vstd::slice::slice_subrange;

verus! {

/// The number of episodes that the note of a trimmed title states, with the
/// position at which the note opens. The note is what follows the last `(`
/// of a title that ends in `)`; it states a number where, trimmed, it ends in
/// ` episodes` and what stands before that is, trimmed, an unsigned numeral
/// that fits 32 bits.
pub open spec fn episode_note(t: Seq<char>) -> Option<(int, nat)> {
    match last_index(t, '(') {
        Some(i) => if t.last() == ')' && i + 1 <= t.len() - 1 {
            let inner = trim(t.subrange(i + 1, t.len() - 1));
            if ends_with(inner, " episodes"@) {
                match bounded_value(
                    trim(inner.take(inner.len() - " episodes"@.len())),
                    u32::MAX as nat,
                ) {
                    Some(n) => Some((i, n)),
                    None => None,
                }
            } else {
                None
            }
        } else {
            None
        },
        None => None,
    }
}

/// The name of a title and the number of episodes that its note states.
/// Without such a note the name is the whole trimmed title.
pub open spec fn title_and_total(title: Seq<char>) -> (Seq<char>, Option<nat>) {
    let t = trim(title);
    match episode_note(t) {
        Some((i, n)) => (trim(t.take(i)), Some(n)),
        None => (t, None),
    }
}

/// The title to search for: the trimmed title, cut before the last `(`
/// where it ends in `)` and holds `episodes` from there on.
pub open spec fn search_title(title: Seq<char>) -> Seq<char> {
    let t = trim(title);
    match last_index(t, '(') {
        Some(i) => if t.last() == ')' && contains_text(t.skip(i), "episodes"@) {
            trim(t.take(i))
        } else {
            t
        },
        None => t,
    }
}

/// At most `max` characters of `s`: where `s` is longer, its first `max - 3`
/// characters (none where `max` is below 3) and three dots.
pub open spec fn truncated(s: Seq<char>, max: nat) -> Seq<char> {
    if s.len() > max {
        s.take(if max >= 3 {
            max - 3
        } else {
            0
        }) + "..."@
    } else {
        s
    }
}

/// The name and the episode count of a title, over characters.
pub fn title_and_total_chars(title: &[char]) -> (r: (Vec<char>, Option<u32>))
    ensures
        r.0@ == title_and_total(title@).0,
        match r.1 {
            Some(n) => title_and_total(title@).1 == Some(n as nat),
            None => title_and_total(title@).1 is None,
        },
{
    let (a, b) = trim_bounds(title);
    let t = slice_subrange(title, a, b);
    let n = t.len();
    let plain = copy_range(t, 0, n);
    assert(t@.subrange(0, n as int) =~= t@);
    let i = match rfind_char(t, '(') {
        Some(i) => i,
        None => {
            return (plain, None);
        },
    };
    if t[n - 1] != ')' {
        return (plain, None);
    }
    let inner_raw = slice_subrange(t, i + 1, n - 1);
    let (c, d) = trim_bounds(inner_raw);
    let inner = slice_subrange(inner_raw, c, d);
    let suffix = chars_of(" episodes");
    if !has_suffix(inner, suffix.as_slice()) {
        return (plain, None);
    }
    let digits = slice_subrange(inner, 0, inner.len() - suffix.len());
    assert(digits@ =~= inner@.take(inner@.len() - " episodes"@.len()));
    let (e, f) = trim_bounds(digits);
    match parse_u32_chars(slice_subrange(digits, e, f)) {
        Some(count) => {
            assert(t@.subrange(0, i as int) =~= t@.take(i as int));
            (trim_chars(slice_subrange(t, 0, i)), Some(count))
        },
        None => (plain, None),
    }
}

/// The name of a title and the number of episodes that its note states.
pub fn parse_title_and_total_eps(title: &str) -> (r: (String, Option<u32>))
    ensures
        r.0@ == title_and_total(title@).0,
        match r.1 {
            Some(n) => title_and_total(title@).1 == Some(n as nat),
            None => title_and_total(title@).1 is None,
        },
{
    let c = chars_of(title);
    let (name, total) = title_and_total_chars(c.as_slice());
    (string_of(name.as_slice()), total)
}

/// The title to search for, over characters.
pub fn search_title_chars(title: &[char]) -> (out: Vec<char>)
    ensures
        out@ == search_title(title@),
{
    let (a, b) = trim_bounds(title);
    let t = slice_subrange(title, a, b);
    let n = t.len();
    assert(t@.subrange(0, n as int) =~= t@);
    match rfind_char(t, '(') {
        Some(i) => {
            let word = chars_of("episodes");
            assert(t@.subrange(i as int, n as int) =~= t@.skip(i as int));
            assert(t@.subrange(0, i as int) =~= t@.take(i as int));
            if t[n - 1] == ')' && has_text(slice_subrange(t, i, n), word.as_slice()) {
                trim_chars(slice_subrange(t, 0, i))
            } else {
                copy_range(t, 0, n)
            }
        },
        None => copy_range(t, 0, n),
    }
}

/// The title to hand the search: the trimmed title without a closing note
/// that speaks of episodes.
pub fn sanitize_title_for_search(title: &str) -> (out: String)
    ensures
        out@ == search_title(title@),
{
    let c = chars_of(title);
    string_of(search_title_chars(c.as_slice()).as_slice())
}

/// At most `max` characters of `s`, with three dots where it was cut.
pub fn truncate(s: &str, max: usize) -> (out: String)
    ensures
        out@ == truncated(s@, max as nat),
{
    let c = chars_of(s);
    if c.len() > max {
        let keep: usize = if max >= 3 {
            max - 3
        } else {
            0
        };
        let mut out = copy_range(c.as_slice(), 0, keep);
        assert(c@.subrange(0, keep as int) =~= c@.take(keep as int));
        let dots = chars_of("...");
        crate::text::append_chars(&mut out, dots.as_slice());
        string_of(out.as_slice())
    } else {
        string_of(c.as_slice())
    }
}

} // verus!
