//! Which episode comes next, which came before, and which label to hand the
//! playback program, from the last label watched and, where it is known, the
//! show's catalog of labels.
use crate::decimal::{
    canonical_digits, digits_are_zero, digits_minus_one, lemma_value_zero, zeros, Numeral,
};
use crate::label::{
    label_number, label_u32, labels_match, labels_match_chars, read_label_number,
    read_label_u32,
};
use crate::number::{all_digits, decimal_chars, decimal_text, digit_char, digits_value, is_digit};
use crate::text::{chars_of, string_of, views};
use vstd::prelude::*;

verus! {

/// The texts of a sequence of strings.
pub open spec fn texts(list: Seq<String>) -> Seq<Seq<char>> {
    list.map_values(|s: String| s@)
}

/// The texts of a catalog that may be unknown.
pub open spec fn catalog_texts(list: Option<&[String]>) -> Option<Seq<Seq<char>>> {
    match list {
        Some(l) => Some(texts(l@)),
        None => None,
    }
}

/// Position `i` holds the first label of the catalog that matches `label`.
pub open spec fn is_first_match(catalog: Seq<Seq<char>>, label: Seq<char>, i: int) -> bool {
    &&& 0 <= i < catalog.len()
    &&& labels_match(catalog[i], label)
    &&& forall|j: int| 0 <= j < i ==> !labels_match(#[trigger] catalog[j], label)
}

/// The position of the first label of the catalog that matches `label`.
pub open spec fn first_match(catalog: Seq<Seq<char>>, label: Seq<char>) -> Option<int> {
    let i = choose|i: int| is_first_match(catalog, label, i);
    if is_first_match(catalog, label, i) {
        Some(i)
    } else {
        None
    }
}

/// The position of `label` in a catalog that may be unknown.
pub open spec fn catalog_position(label: Seq<char>, catalog: Option<Seq<Seq<char>>>) -> Option<
    int,
> {
    match catalog {
        Some(list) => first_match(list, label),
        None => None,
    }
}

/// The catalog entry `back` places before position `i`, if there is one.
pub open spec fn entry_before(catalog: Option<Seq<Seq<char>>>, i: int, back: int) -> Option<
    Seq<char>,
> {
    match catalog {
        Some(list) => if i >= back && i - back < list.len() {
            Some(list[i - back])
        } else {
            None
        },
        None => None,
    }
}

/// Without a catalog: the label before a whole-number label above 1.
pub open spec fn numeric_replay_seed(last: Seq<char>) -> Option<Seq<char>> {
    match label_u32(last) {
        Some(n) if n > 1 => Some(decimal_text((n - 1) as nat)),
        _ => None,
    }
}

/// The label to seed the playback program with so that it plays `last`
/// again: the catalog entry before it, or without a catalog match the whole
/// number before it.
pub open spec fn replay_seed(last: Seq<char>, catalog: Option<Seq<Seq<char>>>) -> Option<
    Seq<char>,
> {
    match catalog_position(last, catalog) {
        Some(i) => entry_before(catalog, i, 1),
        None => numeric_replay_seed(last),
    }
}

/// Without a catalog: the whole number before a label's number. Below a
/// whole number above zero that is the number less one; below any other
/// number above zero it is the number rounded down.
pub open spec fn numeric_previous_value(last: Seq<char>) -> Option<nat> {
    match label_number(last) {
        Some(d) if d.is_positive() => Some(
            if d.is_whole() {
                (d.whole_part() - 1) as nat
            } else {
                d.whole_part()
            },
        ),
        _ => None,
    }
}

/// Without a catalog: the label of the episode before `last`.
pub open spec fn numeric_previous_target(last: Seq<char>) -> Option<Seq<char>> {
    match numeric_previous_value(last) {
        Some(n) => Some(decimal_text(n)),
        None => None,
    }
}

/// The label of the episode before `last`.
pub open spec fn previous_target(last: Seq<char>, catalog: Option<Seq<Seq<char>>>) -> Option<
    Seq<char>,
> {
    match catalog_position(last, catalog) {
        Some(i) => entry_before(catalog, i, 1),
        None => numeric_previous_target(last),
    }
}

/// Without a catalog: the label before the previous episode, where the
/// previous episode is above 1.
pub open spec fn numeric_previous_seed(last: Seq<char>) -> Option<Seq<char>> {
    match numeric_previous_value(last) {
        Some(n) if n > 1 => Some(decimal_text((n - 1) as nat)),
        _ => None,
    }
}

/// The label to seed the playback program with so that it plays the episode
/// before `last`.
pub open spec fn previous_seed(last: Seq<char>, catalog: Option<Seq<Seq<char>>>) -> Option<
    Seq<char>,
> {
    match catalog_position(last, catalog) {
        Some(i) => entry_before(catalog, i, 2),
        None => numeric_previous_seed(last),
    }
}

/// Whether an episode follows `last`: by the catalog where it holds `last`,
/// else by the number of episodes where that and the label's whole number are
/// known, else yes.
pub open spec fn has_next(
    last: Seq<char>,
    total: Option<u32>,
    catalog: Option<Seq<Seq<char>>>,
) -> bool {
    match catalog_position(last, catalog) {
        Some(i) => i + 1 < catalog->0.len(),
        None => match (total, label_u32(last)) {
            (Some(t), Some(n)) => n < t,
            _ => true,
        },
    }
}

/// `out` is a string exactly when `model` is a text, and then that text.
pub open spec fn same_text(out: Option<String>, model: Option<Seq<char>>) -> bool {
    match out {
        Some(s) => model == Some(s@),
        None => model is None,
    }
}

/// The characters of each string of a list.
pub fn catalog_chars(list: &[String]) -> (out: Vec<Vec<char>>)
    ensures
        views(out@) == texts(list@),
{
    let mut out: Vec<Vec<char>> = Vec::new();
    let mut i: usize = 0;
    while i < list.len()
        invariant
            i <= list.len(),
            views(out@) == texts(list@).take(i as int),
        decreases list.len() - i,
    {
        let ghost prev = views(out@);
        let c = chars_of(list[i].as_str());
        out.push(c);
        i += 1;
        assert(views(out@) =~= prev.push(list@[i - 1]@));
        assert(texts(list@).take(i as int) =~= texts(list@).take(i - 1).push(list@[i - 1]@));
    }
    assert(texts(list@).take(i as int) =~= texts(list@));
    out
}

/// The position of the first label of the catalog that matches `label`.
pub fn find_label(catalog: &Vec<Vec<char>>, label: &[char]) -> (r: Option<usize>)
    ensures
        match r {
            Some(i) => first_match(views(catalog@), label@) == Some(i as int) && i < catalog.len(),
            None => first_match(views(catalog@), label@) is None,
        },
{
    let ghost c = views(catalog@);
    let mut i: usize = 0;
    while i < catalog.len()
        invariant
            i <= catalog.len(),
            c == views(catalog@),
            forall|j: int| 0 <= j < i ==> !labels_match(#[trigger] c[j], label@),
        decreases catalog.len() - i,
    {
        assert(c[i as int] == catalog@[i as int]@);
        if labels_match_chars(catalog[i].as_slice(), label) {
            proof {
                assert(is_first_match(c, label@, i as int));
                let k = choose|k: int| is_first_match(c, label@, k);
                assert(k == i);
            }
            return Some(i);
        }
        i += 1;
    }
    None
}

/// The position of `label` in a catalog that may be unknown, with the
/// catalog's characters.
fn locate(label: &[char], episode_list: Option<&[String]>) -> (r: (Vec<Vec<char>>, Option<usize>))
    ensures
        match r.1 {
            Some(i) => catalog_position(label@, catalog_texts(episode_list)) == Some(i as int)
                && episode_list is Some && i < r.0.len(),
            None => catalog_position(label@, catalog_texts(episode_list)) is None,
        },
        episode_list is Some ==> views(r.0@) == texts(episode_list->0@),
{
    match episode_list {
        Some(list) => {
            let c = catalog_chars(list);
            let found = find_label(&c, label);
            (c, found)
        },
        None => (Vec::new(), None),
    }
}

fn numeral_is_positive(n: &Numeral) -> (b: bool)
    requires
        n.wf(),
    ensures
        b == n@.is_positive(),
{
    let wz = digits_are_zero(n.whole.as_slice());
    let fz = digits_are_zero(n.fraction.as_slice());
    proof {
        let w = n.whole@;
        let f = n.fraction@;
        let all = w + f + zeros(0);
        assert(all =~= w + f);
        assert(all_digits(w + f)) by {
            assert forall|i: int| 0 <= i < (w + f).len() implies is_digit(#[trigger] (w + f)[i]) by {
                if i < w.len() {
                    assert((w + f)[i] == w[i]);
                } else {
                    assert((w + f)[i] == f[i - w.len()]);
                }
            }
        }
        lemma_value_zero(w + f);
        if wz && fz {
            assert(w + f =~= zeros((w + f).len()));
        }
        if w + f == zeros((w + f).len()) {
            assert(w =~= zeros(w.len())) by {
                assert forall|i: int| 0 <= i < w.len() implies w[i] == '0' by {
                    assert((w + f)[i] == w[i]);
                }
            }
            assert(f =~= zeros(f.len())) by {
                assert forall|i: int| 0 <= i < f.len() implies f[i] == '0' by {
                    assert((w + f)[i + w.len()] == f[i]);
                }
            }
        }
    }
    !n.negative && !(wz && fz)
}

/// Digits that write the whole number before a label's number.
fn numeric_previous_digits(last: &[char]) -> (r: Option<Vec<char>>)
    ensures
        match r {
            Some(d) => all_digits(d@) && numeric_previous_value(last@) == Some(digits_value(d@)),
            None => numeric_previous_value(last@) is None,
        },
{
    match read_label_number(last) {
        None => None,
        Some(n) => {
            if !numeral_is_positive(&n) {
                return None;
            }
            if digits_are_zero(n.fraction.as_slice()) {
                proof {
                    let w = n.whole@;
                    let f = n.fraction@;
                    assert(w + f + zeros(0) =~= w + f);
                    if digits_value(w) == 0 {
                        lemma_value_zero(w);
                        assert(w + f =~= zeros((w + f).len()));
                        crate::decimal::lemma_zeros_value((w + f).len());
                    }
                }
                Some(digits_minus_one(n.whole.as_slice()))
            } else {
                Some(n.whole)
            }
        },
    }
}

fn exceeds_one(canonical: &Vec<char>, Ghost(n): Ghost<nat>) -> (b: bool)
    requires
        canonical@ == decimal_text(n),
    ensures
        b == (n > 1),
{
    proof {
        if n >= 10 {
            assert(decimal_text(n) == decimal_text(n / 10).push(digit_char(n % 10)));
            lemma_text_not_empty(n / 10);
        }
    }
    canonical.len() > 1 || (canonical.len() == 1 && canonical[0] > '1')
}

/// The decimal numeral of a number has at least one digit.
pub proof fn lemma_text_not_empty(n: nat)
    ensures
        decimal_text(n).len() >= 1,
    decreases n,
{
    if n >= 10 {
        lemma_text_not_empty(n / 10);
    }
}

fn entry_at(catalog: &Vec<Vec<char>>, i: usize, back: usize) -> (out: Option<String>)
    requires
        i < catalog.len(),
    ensures
        same_text(out, entry_before(Some(views(catalog@)), i as int, back as int)),
{
    if i >= back {
        assert(views(catalog@)[i - back] == catalog@[i - back]@);
        Some(string_of(catalog[i - back].as_slice()))
    } else {
        None
    }
}

/// The label to seed the playback program with so that it plays
/// `last_episode` again: the catalog entry before the first one that matches,
/// nothing where that is the first entry; without a catalog match, the whole
/// number before the label's, where that label is above 1.
pub fn replay_seed_episode(last_episode: &str, episode_list: Option<&[String]>) -> (out: Option<
    String,
>)
    ensures
        same_text(out, replay_seed(last_episode@, catalog_texts(episode_list))),
{
    let last = chars_of(last_episode);
    let (catalog, found) = locate(last.as_slice(), episode_list);
    match found {
        Some(i) => entry_at(&catalog, i, 1),
        None => match read_label_u32(last.as_slice()) {
            Some(n) => if n > 1 {
                Some(string_of(decimal_chars((n - 1) as u128).as_slice()))
            } else {
                None
            },
            None => None,
        },
    }
}

/// The label of the episode before `last_episode`: the catalog entry before
/// the first one that matches; without a catalog match, for a number above
/// zero the whole number below it.
pub fn previous_target_episode(last_episode: &str, episode_list: Option<&[String]>) -> (out:
    Option<String>)
    ensures
        same_text(out, previous_target(last_episode@, catalog_texts(episode_list))),
{
    let last = chars_of(last_episode);
    let (catalog, found) = locate(last.as_slice(), episode_list);
    match found {
        Some(i) => entry_at(&catalog, i, 1),
        None => match numeric_previous_digits(last.as_slice()) {
            Some(d) => Some(string_of(canonical_digits(d.as_slice()).as_slice())),
            None => None,
        },
    }
}

/// The label to seed the playback program with so that it plays the episode
/// before `last_episode`: the catalog entry two places before the first one
/// that matches; without a catalog match, the whole number before the
/// previous episode's, where that one is above 1.
pub fn previous_seed_episode(last_episode: &str, episode_list: Option<&[String]>) -> (out: Option<
    String,
>)
    ensures
        same_text(out, previous_seed(last_episode@, catalog_texts(episode_list))),
{
    let last = chars_of(last_episode);
    let (catalog, found) = locate(last.as_slice(), episode_list);
    match found {
        Some(i) => entry_at(&catalog, i, 2),
        None => match numeric_previous_digits(last.as_slice()) {
            Some(d) => {
                let c = canonical_digits(d.as_slice());
                if exceeds_one(&c, Ghost(digits_value(d@))) {
                    let less = digits_minus_one(d.as_slice());
                    Some(string_of(canonical_digits(less.as_slice()).as_slice()))
                } else {
                    None
                }
            },
            None => None,
        },
    }
}

/// Whether an episode follows `last_episode`.
pub fn has_next_episode(
    last_episode: &str,
    total_episodes: Option<u32>,
    episode_list: Option<&[String]>,
) -> (b: bool)
    ensures
        b == has_next(last_episode@, total_episodes, catalog_texts(episode_list)),
{
    let last = chars_of(last_episode);
    let (catalog, found) = locate(last.as_slice(), episode_list);
    match found {
        Some(i) => i + 1 < catalog.len(),
        None => match (total_episodes, read_label_u32(last.as_slice())) {
            (Some(t), Some(n)) => n < t,
            _ => true,
        },
    }
}

/// Whether an episode comes before `last_episode`.
pub fn has_previous_episode(last_episode: &str, episode_list: Option<&[String]>) -> (b: bool)
    ensures
        b == previous_target(last_episode@, catalog_texts(episode_list)) is Some,
{
    previous_target_episode(last_episode, episode_list).is_some()
}

/// Where the last label watched is the catalog's last entry, no episode
/// follows, whatever number of episodes the title states: the catalog
/// counts, not the numbers.
pub proof fn lemma_catalog_end_has_no_next(
    last: Seq<char>,
    total: Option<u32>,
    catalog: Seq<Seq<char>>,
)
    requires
        first_match(catalog, last) == Some(catalog.len() - 1),
    ensures
        !has_next(last, total, Some(catalog)),
{
}

/// The first entry of a catalog has no seed to replay it from, none to go
/// back from, and no episode before it.
pub proof fn lemma_first_entry_has_no_seed(last: Seq<char>, catalog: Seq<Seq<char>>)
    requires
        first_match(catalog, last) == Some(0int),
    ensures
        replay_seed(last, Some(catalog)) is None,
        previous_target(last, Some(catalog)) is None,
        previous_seed(last, Some(catalog)) is None,
{
}

} // verus!
