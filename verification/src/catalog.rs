//! A show's catalog of episode labels: read from the catalog service's
//! answer, chosen between the translated variants, and put in order.
use crate::episode::{catalog_chars, texts};
use crate::json::{json_document, parse_json, Json};
use crate::label::{label_order, label_order_chars, lemma_order_turns, LabelOrder};
use crate::text::{chars_eq, chars_of, string_of, trim, trim_chars, views};
use vstd::prelude::*;
use vstd::seq_lib::to_multiset_build;

verus! {

/// The label that one item of the answer holds: a string trimmed, a number
/// as it is written; nothing for anything else, for a blank text and for the
/// text `null`.
pub open spec fn item_label(item: Json) -> Option<Seq<char>> {
    let text = match item {
        Json::Text(s) => Some(trim(s@)),
        Json::Number(n) => Some(n@),
        _ => None,
    };
    match text {
        Some(t) => if t.len() > 0 && t != "null"@ {
            Some(t)
        } else {
            None
        },
        None => None,
    }
}

/// The labels that the items hold, in the order of the items.
pub open spec fn item_labels(items: Seq<Json>) -> Seq<Seq<char>>
    decreases items.len(),
{
    if items.len() == 0 {
        Seq::<Seq<char>>::empty()
    } else {
        match item_label(items.last()) {
            Some(l) => item_labels(items.drop_last()).push(l),
            None => item_labels(items.drop_last()),
        }
    }
}

/// The items that an answer lists for a translation mode: the array under
/// `data`, `show`, `availableEpisodesDetail` and the mode.
pub open spec fn mode_items(doc: Json, mode: Seq<char>) -> Option<Seq<Json>> {
    match crate::search::member3(doc, "data"@, "show"@, "availableEpisodesDetail"@) {
        Some(detail) => match detail.member(mode) {
            Some(list) => list.items(),
            None => None,
        },
        None => None,
    }
}

/// The labels that an answer lists for a translation mode; nothing where it
/// lists none.
pub open spec fn mode_labels(doc: Json, mode: Seq<char>) -> Option<Seq<Seq<char>>> {
    match mode_items(doc, mode) {
        Some(items) => if item_labels(items).len() > 0 {
            Some(item_labels(items))
        } else {
            None
        },
        None => None,
    }
}

/// `out` holds labels exactly when `model` does, and then those.
pub open spec fn same_labels(out: Option<Vec<String>>, model: Option<Seq<Seq<char>>>) -> bool {
    match out {
        Some(v) => model == Some(texts(v@)),
        None => model is None,
    }
}

/// The strings of a vector of character vectors.
pub fn strings_of(labels: &Vec<Vec<char>>) -> (out: Vec<String>)
    ensures
        texts(out@) == views(labels@),
{
    let mut out: Vec<String> = Vec::new();
    let mut i: usize = 0;
    while i < labels.len()
        invariant
            i <= labels.len(),
            texts(out@) == views(labels@).take(i as int),
        decreases labels.len() - i,
    {
        let ghost prev = texts(out@);
        out.push(string_of(labels[i].as_slice()));
        i += 1;
        assert(texts(out@) =~= prev.push(labels@[i - 1]@));
        assert(views(labels@).take(i as int) =~= views(labels@).take(i - 1).push(
            labels@[i - 1]@,
        ));
    }
    assert(views(labels@).take(i as int) =~= views(labels@));
    out
}

fn label_of_item(item: &Json) -> (r: Option<Vec<char>>)
    ensures
        match r {
            Some(l) => item_label(*item) == Some(l@),
            None => item_label(*item) is None,
        },
{
    let text = match item {
        Json::Text(s) => {
            let c = chars_of(s.as_str());
            trim_chars(c.as_slice())
        },
        Json::Number(n) => chars_of(n.as_str()),
        _ => {
            return None;
        },
    };
    let null = chars_of("null");
    if text.len() > 0 && !chars_eq(text.as_slice(), null.as_slice()) {
        Some(text)
    } else {
        None
    }
}

/// The labels that a document lists for a translation mode.
pub fn mode_labels_from_json(doc: &Json, mode: &str) -> (out: Option<Vec<String>>)
    ensures
        same_labels(out, mode_labels(*doc, mode@)),
{
    let detail = match doc.get("data") {
        Some(x) => match x.get("show") {
            Some(y) => match y.get("availableEpisodesDetail") {
                Some(z) => z,
                None => {
                    return None;
                },
            },
            None => {
                return None;
            },
        },
        None => {
            return None;
        },
    };
    let items = match detail.get(mode) {
        Some(list) => match list.as_array() {
            Some(items) => items,
            None => {
                return None;
            },
        },
        None => {
            return None;
        },
    };
    let mut labels: Vec<Vec<char>> = Vec::new();
    let mut i: usize = 0;
    assert(views(labels@) =~= item_labels(items@.take(0)));
    while i < items.len()
        invariant
            i <= items.len(),
            views(labels@) == item_labels(items@.take(i as int)),
        decreases items.len() - i,
    {
        proof {
            assert(items@.take(i + 1).drop_last() =~= items@.take(i as int));
            assert(items@.take(i + 1).last() == items@[i as int]);
        }
        match label_of_item(&items[i]) {
            Some(l) => {
                let ghost prev = views(labels@);
                labels.push(l);
                assert(views(labels@) =~= prev.push(l@));
            },
            None => {},
        }
        i += 1;
    }
    assert(items@.take(i as int) =~= items@);
    if labels.len() == 0 {
        None
    } else {
        Some(strings_of(&labels))
    }
}

/// The labels that the text of an answer lists for a translation mode;
/// nothing where the text is no JSON.
pub open spec fn mode_labels_of_text(raw: Seq<char>, mode: Seq<char>) -> Option<Seq<Seq<char>>> {
    match json_document(raw) {
        Some(doc) => mode_labels(doc, mode),
        None => None,
    }
}

/// Reads the labels that an answer lists for a translation mode.
pub fn parse_mode_episode_labels(raw: &str, mode: &str) -> (out: Option<Vec<String>>)
    ensures
        same_labels(out, mode_labels_of_text(raw@, mode@)),
{
    match parse_json(raw) {
        Some(doc) => mode_labels_from_json(&doc, mode),
        None => None,
    }
}

/// The length of a list as it is held against the number of episodes: kept
/// to 32 bits.
pub open spec fn length_u32(n: nat) -> u32 {
    (n % 0x1_0000_0000) as u32
}

/// Position `i` holds the first candidate of exactly `total` labels.
pub open spec fn is_first_of_length(candidates: Seq<Seq<Seq<char>>>, total: u32, i: int) -> bool {
    &&& 0 <= i < candidates.len()
    &&& length_u32(candidates[i].len()) == total
    &&& forall|j: int| 0 <= j < i ==> length_u32((#[trigger] candidates[j]).len()) != total
}

/// Position `i` holds the last of the longest candidates.
pub open spec fn is_last_longest(candidates: Seq<Seq<Seq<char>>>, i: int) -> bool {
    &&& 0 <= i < candidates.len()
    &&& forall|j: int| 0 <= j < i ==> (#[trigger] candidates[j]).len() <= candidates[i].len()
    &&& forall|j: int|
        i < j < candidates.len() ==> (#[trigger] candidates[j]).len() < candidates[i].len()
}

/// The position of the candidate to prefer: with a known number of episodes
/// the first candidate of exactly that length, else the longest, and of
/// several longest the last; nothing without candidates.
pub open spec fn chosen_candidate(candidates: Seq<Seq<Seq<char>>>, total_hint: Option<u32>)
    -> Option<int> {
    if candidates.len() == 0 {
        None
    } else {
        let exact = choose|i: int| total_hint is Some && is_first_of_length(candidates, total_hint->0, i);
        if total_hint is Some && is_first_of_length(candidates, total_hint->0, exact) {
            Some(exact)
        } else {
            Some(choose|i: int| is_last_longest(candidates, i))
        }
    }
}

/// The texts of lists of strings.
pub open spec fn candidate_texts(candidates: Seq<Vec<String>>) -> Seq<Seq<Seq<char>>> {
    candidates.map_values(|c: Vec<String>| texts(c@))
}

fn length_as_u32(n: usize) -> (r: u32)
    ensures
        r == length_u32(n as nat),
{
    let wide: u128 = n as u128;
    (wide % 0x1_0000_0000u128) as u32
}

/// Chooses between the lists of labels that the translated variants of a
/// show give: with a known number of episodes the first list of exactly that
/// length, else the longest.
pub fn choose_episode_labels_candidate(candidates: Vec<Vec<String>>, total_hint: Option<u32>) -> (out:
    Option<Vec<String>>)
    ensures
        match chosen_candidate(candidate_texts(candidates@), total_hint) {
            Some(i) => out is Some && 0 <= i < candidates@.len() && texts(out->0@) == texts(
                candidates@[i]@,
            ),
            None => out is None,
        },
{
    let ghost c = candidate_texts(candidates@);
    let n = candidates.len();
    if n == 0 {
        return None;
    }
    let mut pick: usize = 0;
    let mut exact = false;
    if let Some(total) = total_hint {
        let mut i: usize = 0;
        while i < n && !exact
            invariant
                i <= n == candidates.len(),
                c == candidate_texts(candidates@),
                !exact ==> forall|j: int| 0 <= j < i ==> length_u32((#[trigger] c[j]).len()) != total,
                exact ==> pick < n && is_first_of_length(c, total, pick as int),
            decreases n - i + (if exact { 0int } else { 1int }),
        {
            assert(c[i as int].len() == candidates@[i as int]@.len());
            if length_as_u32(candidates[i].len()) == total {
                pick = i;
                exact = true;
            } else {
                i += 1;
            }
        }
    }
    if !exact {
        let mut i: usize = 1;
        pick = 0;
        while i < n
            invariant
                1 <= i <= n == candidates.len(),
                c == candidate_texts(candidates@),
                pick < i,
                forall|j: int| 0 <= j < pick ==> (#[trigger] c[j]).len() <= c[pick as int].len(),
                forall|j: int| pick < j < i ==> (#[trigger] c[j]).len() < c[pick as int].len(),
                total_hint is Some ==> forall|j: int|
                    0 <= j < n ==> length_u32((#[trigger] c[j]).len()) != total_hint->0,
            decreases n - i,
        {
            assert(c[i as int].len() == candidates@[i as int]@.len());
            assert(c[pick as int].len() == candidates@[pick as int]@.len());
            if candidates[i].len() >= candidates[pick].len() {
                pick = i;
            }
            i += 1;
        }
        proof {
            assert(is_last_longest(c, pick as int));
            let l = choose|l: int| is_last_longest(c, l);
            assert(is_last_longest(c, l));
            assert(l == pick) by {
                if l < pick {
                    assert(c[pick as int].len() < c[l].len());
                    assert(c[l].len() <= c[pick as int].len());
                }
                if l > pick {
                    assert(c[l].len() < c[pick as int].len());
                    assert(c[pick as int].len() <= c[l].len());
                }
            }
        }
    } else {
        proof {
            let total = total_hint->0;
            let e = choose|e: int| total_hint is Some && is_first_of_length(c, total, e);
            assert(total_hint is Some && is_first_of_length(c, total, pick as int));
            assert(e == pick);
        }
    }
    let mut list = candidates;
    let chosen = list.swap_remove(pick);
    Some(chosen)
}

/// A sorted list with one more label put in: behind the last label that is
/// not greater than it.
pub open spec fn insert_label(sorted: Seq<Seq<char>>, x: Seq<char>) -> Seq<Seq<char>>
    decreases sorted.len(),
{
    if sorted.len() == 0 {
        seq![x]
    } else if label_order(sorted.last(), x) is Greater {
        insert_label(sorted.drop_last(), x).push(sorted.last())
    } else {
        sorted.push(x)
    }
}

/// The labels in order: numbers before other labels, numbers by their
/// value, other labels by their text, and labels that stand equal in the
/// order in which they came.
pub open spec fn sorted_labels(labels: Seq<Seq<char>>) -> Seq<Seq<char>>
    decreases labels.len(),
{
    if labels.len() == 0 {
        Seq::<Seq<char>>::empty()
    } else {
        insert_label(sorted_labels(labels.drop_last()), labels.last())
    }
}

proof fn lemma_insert_at(sorted: Seq<Seq<char>>, x: Seq<char>, j: int)
    requires
        0 <= j <= sorted.len(),
        forall|k: int| j <= k < sorted.len() ==> label_order(#[trigger] sorted[k], x) is Greater,
        j == 0 || !(label_order(sorted[j - 1], x) is Greater),
    ensures
        insert_label(sorted, x) == sorted.take(j).push(x) + sorted.skip(j),
    decreases sorted.len() - j,
{
    if j == sorted.len() {
        assert(sorted.take(j).push(x) + sorted.skip(j) =~= sorted.push(x));
        if sorted.len() > 0 {
            assert(sorted.last() == sorted[j - 1]);
        }
    } else {
        let front = sorted.drop_last();
        assert(label_order(sorted[sorted.len() - 1], x) is Greater);
        assert forall|k: int| j <= k < front.len() implies label_order(
            #[trigger] front[k],
            x,
        ) is Greater by {
            assert(front[k] == sorted[k]);
        }
        if j > 0 {
            assert(front[j - 1] == sorted[j - 1]);
        }
        lemma_insert_at(front, x, j);
        assert((front.take(j).push(x) + front.skip(j)).push(sorted.last()) =~= sorted.take(j).push(
            x,
        ) + sorted.skip(j));
    }
}

/// Puts labels in order, over characters.
pub fn sort_label_chars(labels: &Vec<Vec<char>>) -> (out: Vec<Vec<char>>)
    ensures
        views(out@) == sorted_labels(views(labels@)),
{
    let ghost all = views(labels@);
    let mut out: Vec<Vec<char>> = Vec::new();
    let mut i: usize = 0;
    assert(views(out@) =~= sorted_labels(all.take(0)));
    while i < labels.len()
        invariant
            i <= labels.len(),
            all == views(labels@),
            views(out@) == sorted_labels(all.take(i as int)),
        decreases labels.len() - i,
    {
        let x = crate::text::copy_range(labels[i].as_slice(), 0, labels[i].len());
        proof {
            assert(x@ =~= labels@[i as int]@);
            assert(all.take(i + 1).drop_last() =~= all.take(i as int));
            assert(all.take(i + 1).last() == x@);
        }
        let ghost before = views(out@);
        let mut j: usize = out.len();
        while j > 0 && label_order_chars(out[j - 1].as_slice(), x.as_slice()) == LabelOrder::Greater
            invariant
                j <= out.len(),
                before == views(out@),
                forall|k: int| j <= k < before.len() ==> label_order(#[trigger] before[k], x@) is Greater,
            decreases j,
        {
            assert(before[j - 1] == out@[j - 1]@);
            j -= 1;
        }
        proof {
            if j > 0 {
                assert(before[j - 1] == out@[j - 1]@);
            }
            lemma_insert_at(before, x@, j as int);
        }
        out.insert(j, x);
        assert(views(out@) =~= before.take(j as int).push(x@) + before.skip(j as int));
        i += 1;
    }
    assert(all.take(i as int) =~= all);
    out
}

/// Puts the labels of a catalog in order.
pub fn sort_episode_labels(labels: &[String]) -> (out: Vec<String>)
    ensures
        texts(out@) == sorted_labels(texts(labels@)),
{
    let c = catalog_chars(labels);
    let sorted = sort_label_chars(&c);
    strings_of(&sorted)
}

/// The list to prefer among those that an answer gives for the translation
/// modes `sub` and `dub`, in that order.
pub open spec fn preferred_labels(doc: Json, total_hint: Option<u32>) -> Option<Seq<Seq<char>>> {
    let sub = mode_labels(doc, "sub"@);
    let dub = mode_labels(doc, "dub"@);
    let candidates = match (sub, dub) {
        (Some(s), Some(d)) => seq![s, d],
        (Some(s), None) => seq![s],
        (None, Some(d)) => seq![d],
        (None, None) => Seq::<Seq<Seq<char>>>::empty(),
    };
    match chosen_candidate(candidates, total_hint) {
        Some(i) => Some(candidates[i]),
        None => None,
    }
}

/// The catalog that an answer of the catalog service gives: the preferred
/// list of labels, in order.
pub open spec fn catalog_of(doc: Json, total_hint: Option<u32>) -> Option<Seq<Seq<char>>> {
    match preferred_labels(doc, total_hint) {
        Some(l) => Some(sorted_labels(l)),
        None => None,
    }
}

/// The catalog that a document of the catalog service gives.
pub fn episode_labels_from_json(doc: &Json, total_hint: Option<u32>) -> (out: Option<Vec<String>>)
    ensures
        same_labels(out, catalog_of(*doc, total_hint)),
{
    let sub = mode_labels_from_json(doc, "sub");
    let dub = mode_labels_from_json(doc, "dub");
    let mut candidates: Vec<Vec<String>> = Vec::new();
    let ghost s_model = mode_labels(*doc, "sub"@);
    let ghost d_model = mode_labels(*doc, "dub"@);
    if let Some(s) = sub {
        candidates.push(s);
    }
    if let Some(d) = dub {
        candidates.push(d);
    }
    proof {
        let model = match (s_model, d_model) {
            (Some(s), Some(d)) => seq![s, d],
            (Some(s), None) => seq![s],
            (None, Some(d)) => seq![d],
            (None, None) => Seq::<Seq<Seq<char>>>::empty(),
        };
        assert(candidate_texts(candidates@) =~= model);
    }
    match choose_episode_labels_candidate(candidates, total_hint) {
        Some(list) => Some(sort_episode_labels(list.as_slice())),
        None => None,
    }
}

/// The catalog that the text of an answer gives; nothing where the text is
/// no JSON.
pub open spec fn catalog_of_text(raw: Seq<char>, total_hint: Option<u32>) -> Option<
    Seq<Seq<char>>,
> {
    match json_document(raw) {
        Some(doc) => catalog_of(doc, total_hint),
        None => None,
    }
}

/// Reads the catalog of a show from the text of the catalog service's
/// answer.
pub fn episode_labels_from_answer(raw: &str, total_hint: Option<u32>) -> (out: Option<Vec<String>>)
    ensures
        same_labels(out, catalog_of_text(raw@, total_hint)),
{
    match parse_json(raw) {
        Some(doc) => episode_labels_from_json(&doc, total_hint),
        None => None,
    }
}

/// No label stands before one that is less than it.
pub open spec fn in_order(labels: Seq<Seq<char>>) -> bool {
    forall|i: int, j: int|
        0 <= i && j == i + 1 && j < labels.len() ==> !(label_order(
            #[trigger] labels[i],
            #[trigger] labels[j],
        ) is Greater)
}

proof fn lemma_insert_keeps_order(sorted: Seq<Seq<char>>, x: Seq<char>)
    requires
        in_order(sorted),
    ensures
        in_order(insert_label(sorted, x)),
        insert_label(sorted, x).len() == sorted.len() + 1,
        insert_label(sorted, x).last() == x || (sorted.len() > 0 && insert_label(sorted, x).last()
            == sorted.last()),
    decreases sorted.len(),
{
    let r = insert_label(sorted, x);
    if sorted.len() == 0 {
    } else if label_order(sorted.last(), x) is Greater {
        let front = sorted.drop_last();
        let last = sorted.last();
        assert(in_order(front)) by {
            assert forall|i: int, j: int| 0 <= i && j == i + 1 && j < front.len() implies !(
            label_order(#[trigger] front[i], #[trigger] front[j]) is Greater) by {
                assert(front[i] == sorted[i] && front[j] == sorted[j]);
            }
        }
        lemma_insert_keeps_order(front, x);
        let inner = insert_label(front, x);
        assert(r == inner.push(last));
        assert(!(label_order(inner.last(), last) is Greater)) by {
            if inner.last() == x {
                lemma_order_turns(last, x);
            } else {
                let k = sorted.len() - 2;
                assert(front.last() == sorted[k]);
                assert(last == sorted[k + 1]);
            }
        }
        assert(in_order(r)) by {
            assert forall|i: int, j: int| 0 <= i && j == i + 1 && j < r.len() implies !(
            label_order(#[trigger] r[i], #[trigger] r[j]) is Greater) by {
                if j < inner.len() {
                    assert(r[i] == inner[i] && r[j] == inner[j]);
                } else {
                    assert(r[i] == inner.last() && r[j] == last);
                }
            }
        }
    } else {
        assert(r == sorted.push(x));
        assert(in_order(r)) by {
            assert forall|i: int, j: int| 0 <= i && j == i + 1 && j < r.len() implies !(
            label_order(#[trigger] r[i], #[trigger] r[j]) is Greater) by {
                if j < sorted.len() {
                    assert(r[i] == sorted[i] && r[j] == sorted[j]);
                } else {
                    assert(r[i] == sorted.last() && r[j] == x);
                }
            }
        }
    }
}

proof fn lemma_insert_keeps_labels(sorted: Seq<Seq<char>>, x: Seq<char>)
    ensures
        insert_label(sorted, x).to_multiset() == sorted.to_multiset().insert(x),
    decreases sorted.len(),
{
    broadcast use vstd::multiset::group_multiset_axioms;

    if sorted.len() == 0 {
        to_multiset_build(sorted, x);
        assert(sorted.push(x) =~= seq![x]);
    } else if label_order(sorted.last(), x) is Greater {
        let front = sorted.drop_last();
        let last = sorted.last();
        lemma_insert_keeps_labels(front, x);
        let inner = insert_label(front, x);
        to_multiset_build(inner, last);
        to_multiset_build(front, last);
        assert(front.push(last) =~= sorted);
        assert(inner.push(last).to_multiset() =~= sorted.to_multiset().insert(x));
    } else {
        to_multiset_build(sorted, x);
    }
}

/// Sorting keeps every label, as often as it occurs, and puts the labels in
/// order: numbers before other labels, numbers by their value, other
/// labels by their text.
pub proof fn lemma_sorted_labels_are_in_order(labels: Seq<Seq<char>>)
    ensures
        in_order(sorted_labels(labels)),
        sorted_labels(labels).len() == labels.len(),
        sorted_labels(labels).to_multiset() == labels.to_multiset(),
    decreases labels.len(),
{
    if labels.len() == 0 {
        assert(sorted_labels(labels) =~= labels);
    } else {
        let front = labels.drop_last();
        lemma_sorted_labels_are_in_order(front);
        lemma_insert_keeps_order(sorted_labels(front), labels.last());
        lemma_insert_keeps_labels(sorted_labels(front), labels.last());
        to_multiset_build(front, labels.last());
        assert(front.push(labels.last()) =~= labels);
    }
}

} // verus!
