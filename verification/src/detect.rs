//! Finding, from the history file as it was before a run and as it is after
//! it, the entry that was watched during the run.
use crate::index::TextMap;
use crate::ledger::{entry_views, latest_by_id, Entry, HistEntry, HistorySnapshot};
use vstd::multiset::Multiset;
use vstd::prelude::*;
use vstd::seq_lib::{to_multiset_contains, to_multiset_remove};

verus! {

/// Length and modification time of the history file.
#[derive(Debug, Clone, Copy, PartialEq, Eq)]
pub struct HistFileSig {
    pub len: u64,
    pub modified_ns: u128,
}

/// The state recorded for the entry's show is missing from `before`, or has
/// another episode or another title.
pub open spec fn is_news(before: Map<Seq<char>, Entry>, e: Entry) -> bool {
    ||| !before.contains_key(e.id)
    ||| before[e.id].ep != e.ep
    ||| before[e.id].title != e.title
}

/// No later position of `after` carries the show id of position `i`.
pub open spec fn is_latest_of_its_show(after: Seq<Entry>, i: int) -> bool {
    forall|j: int| i < j < after.len() ==> (#[trigger] after[j]).id != after[i].id
}

/// Position `i` is the last one that is the latest of its show and news.
pub open spec fn is_changed_latest(
    before: Map<Seq<char>, Entry>,
    after: Seq<Entry>,
    i: int,
) -> bool {
    &&& 0 <= i < after.len()
    &&& is_latest_of_its_show(after, i)
    &&& is_news(before, after[i])
    &&& forall|k: int|
        i < k < after.len() ==> !(#[trigger] is_latest_of_its_show(after, k) && is_news(
            before,
            after[k],
        ))
}

/// Walking `after` from its end and looking at each show once: the first entry
/// whose recorded state is missing from `before` or differs from it.
pub open spec fn changed_latest(before: Map<Seq<char>, Entry>, after: Seq<Entry>) -> Option<
    Entry,
> {
    let i = choose|i: int| is_changed_latest(before, after, i);
    if is_changed_latest(before, after, i) {
        Some(after[i])
    } else {
        None
    }
}

/// Walking `after` in order against a pool of entries: an entry that the pool
/// still holds takes one copy out of it; any other entry is unmatched.
pub open spec fn unmatched(pool: Multiset<Entry>, after: Seq<Entry>) -> Seq<Entry>
    decreases after.len(),
{
    if after.len() == 0 {
        Seq::<Entry>::empty()
    } else if pool.count(after[0]) > 0 {
        unmatched(pool.remove(after[0]), after.drop_first())
    } else {
        seq![after[0]] + unmatched(pool, after.drop_first())
    }
}

/// The entries of `after` that `before` cannot account for, copy by copy.
pub open spec fn added(before: Seq<Entry>, after: Seq<Entry>) -> Seq<Entry> {
    unmatched(before.to_multiset(), after)
}

/// Position `i` is the last one of `s` that is news.
pub open spec fn is_last_news(before: Map<Seq<char>, Entry>, s: Seq<Entry>, i: int) -> bool {
    &&& 0 <= i < s.len()
    &&& is_news(before, s[i])
    &&& forall|k: int| i < k < s.len() ==> !is_news(before, #[trigger] s[k])
}

/// Of the given entries, the last one that is news; where none is, the last one.
pub open spec fn newest_meaningful(before: Map<Seq<char>, Entry>, s: Seq<Entry>) -> Option<
    Entry,
> {
    if s.len() == 0 {
        None
    } else {
        let i = choose|i: int| is_last_news(before, s, i);
        if is_last_news(before, s, i) {
            Some(s[i])
        } else {
            Some(s.last())
        }
    }
}

/// Of the added entries, the last one that is news; where all of them repeat
/// what `before` records, the last one added.
pub open spec fn latest_added_entry(
    before: Map<Seq<char>, Entry>,
    before_ordered: Seq<Entry>,
    after_ordered: Seq<Entry>,
) -> Option<Entry> {
    newest_meaningful(before, added(before_ordered, after_ordered))
}

/// The watched entry as the history file alone shows it: an added entry where
/// there is one, else the changed latest.
pub open spec fn latest_watch_event(
    before: Map<Seq<char>, Entry>,
    before_ordered: Seq<Entry>,
    after_ordered: Seq<Entry>,
) -> Option<Entry> {
    match latest_added_entry(before, before_ordered, after_ordered) {
        Some(e) => Some(e),
        None => changed_latest(before, after_ordered),
    }
}

/// `out` holds an entry exactly when `model` does, and then that one.
pub open spec fn same_entry(out: Option<HistEntry>, model: Option<Entry>) -> bool {
    match out {
        Some(e) => model == Some(e@),
        None => model is None,
    }
}

/// Entries that the pool holds are all matched, and what follows them is
/// walked against what is left of the pool.
proof fn lemma_unmatched_prefix(pool: Multiset<Entry>, s: Seq<Entry>, t: Seq<Entry>)
    requires
        s.to_multiset().subset_of(pool),
    ensures
        unmatched(pool, s + t) == unmatched(pool.sub(s.to_multiset()), t),
    decreases s.len(),
{
    broadcast use vstd::multiset::group_multiset_axioms;

    if s.len() == 0 {
        assert(s + t =~= t);
        s.to_multiset_ensures();
        assert(pool.sub(s.to_multiset()) =~= pool);
    } else {
        let e = s[0];
        let rest = s.drop_first();
        to_multiset_contains(s, e);
        assert(s.contains(e));
        to_multiset_remove(s, 0);
        assert(s.remove(0) =~= rest);
        assert(rest.to_multiset() =~= s.to_multiset().remove(e));
        assert(pool.count(e) >= s.to_multiset().count(e));
        assert((s + t)[0] == e);
        assert((s + t).drop_first() =~= rest + t);
        assert(rest.to_multiset().subset_of(pool.remove(e))) by {
            assert forall|x: Entry|
                rest.to_multiset().count(x) <= #[trigger] pool.remove(e).count(x) by {
                assert(s.to_multiset().count(x) <= pool.count(x));
            }
        }
        lemma_unmatched_prefix(pool.remove(e), rest, t);
        assert(pool.remove(e).sub(rest.to_multiset()) =~= pool.sub(s.to_multiset())) by {
            assert forall|x: Entry|
                pool.remove(e).sub(rest.to_multiset()).count(x) == #[trigger] pool.sub(
                    s.to_multiset(),
                ).count(x) by {
                assert(s.to_multiset().count(x) <= pool.count(x));
            }
        }
    }
}

/// The last entry of its show is the one that `latest_by_id` records.
proof fn lemma_latest_by_id_records(s: Seq<Entry>, i: int)
    requires
        0 <= i < s.len(),
        is_latest_of_its_show(s, i),
    ensures
        latest_by_id(s).contains_key(s[i].id),
        latest_by_id(s)[s[i].id] == s[i],
    decreases s.len(),
{
    if i < s.len() - 1 {
        let front = s.drop_last();
        assert(s[s.len() - 1].id != s[i].id);
        assert(is_latest_of_its_show(front, i)) by {
            assert forall|j: int| i < j < front.len() implies (#[trigger] front[j]).id
                != front[i].id by {
                assert(front[j] == s[j]);
            }
        }
        lemma_latest_by_id_records(front, i);
    }
}

/// Appending one line to the history file makes that line the detected event,
/// whatever was recorded before, also where it repeats an earlier line word
/// for word.
pub proof fn lemma_appended_entry_is_detected(
    before: Map<Seq<char>, Entry>,
    history: Seq<Entry>,
    e: Entry,
)
    ensures
        added(history, history.push(e)) == seq![e],
        latest_added_entry(before, history, history.push(e)) == Some(e),
        latest_watch_event(before, history, history.push(e)) == Some(e),
{
    broadcast use vstd::multiset::group_multiset_axioms;

    let pool = history.to_multiset();
    assert(history.push(e) =~= history + seq![e]);
    lemma_unmatched_prefix(pool, history, seq![e]);
    let left = pool.sub(pool);
    assert(left.count(e) == 0);
    assert(seq![e].drop_first() =~= Seq::<Entry>::empty());
    assert(unmatched(left, Seq::<Entry>::empty()) =~= Seq::<Entry>::empty());
    assert(seq![e][0] == e);
    assert(unmatched(left, seq![e]) =~= seq![e] + unmatched(left, seq![e].drop_first()));
    assert(unmatched(left, seq![e]) =~= seq![e]);
    let s = seq![e];
    let i = choose|i: int| is_last_news(before, s, i);
    if is_last_news(before, s, i) {
        assert(i == 0);
    }
}

/// A history file that reads the same before and after a run shows no watched
/// entry.
pub proof fn lemma_unchanged_history_detects_nothing(history: Seq<Entry>)
    ensures
        added(history, history).len() == 0,
        latest_watch_event(latest_by_id(history), history, history) is None,
{
    broadcast use vstd::multiset::group_multiset_axioms;

    let pool = history.to_multiset();
    let none = Seq::<Entry>::empty();
    assert(history + none =~= history);
    lemma_unmatched_prefix(pool, history, none);
    let before = latest_by_id(history);
    let i = choose|i: int| is_changed_latest(before, history, i);
    if is_changed_latest(before, history, i) {
        lemma_latest_by_id_records(history, i);
    }
}

/// The same length and modification time, or no file both times, count as
/// untouched.
pub proof fn lemma_same_signature_is_untouched(sig: Option<HistFileSig>)
    ensures
        !(sig != sig),
{
}

fn entry_is_news(before: &TextMap<HistEntry>, e: &HistEntry) -> (b: bool)
    requires
        before.wf(),
    ensures
        b == is_news(before@, e@),
{
    match before.get(e.id.as_str()) {
        None => true,
        Some(prev) => prev.ep != e.ep || prev.title != e.title,
    }
}

fn is_latest_occurrence(after: &[HistEntry], i: usize) -> (b: bool)
    requires
        i < after.len(),
    ensures
        b == is_latest_of_its_show(entry_views(after@), i as int),
{
    let ghost s = entry_views(after@);
    let mut j: usize = i + 1;
    while j < after.len()
        invariant
            i < j <= after.len(),
            s == entry_views(after@),
            forall|k: int| i < k < j ==> (#[trigger] s[k]).id != s[i as int].id,
        decreases after.len() - j,
    {
        if after[j].id == after[i].id {
            assert(s[j as int].id == s[i as int].id);
            return false;
        }
        j += 1;
    }
    true
}

/// Walks `after_ordered` from its end, looks at each show id once, and gives
/// the first entry whose state in `before` is missing or differs.
pub fn detect_changed_latest(before: &TextMap<HistEntry>, after_ordered: &[HistEntry]) -> (out:
    Option<HistEntry>)
    requires
        before.wf(),
    ensures
        same_entry(out, changed_latest(before@, entry_views(after_ordered@))),
{
    let ghost after = entry_views(after_ordered@);
    let n = after_ordered.len();
    let mut i: usize = n;
    while i > 0
        invariant
            i <= n == after_ordered.len(),
            after == entry_views(after_ordered@),
            before.wf(),
            forall|k: int|
                i <= k < n ==> !(#[trigger] is_latest_of_its_show(after, k) && is_news(
                    before@,
                    after[k],
                )),
        decreases i,
    {
        i -= 1;
        let current = &after_ordered[i];
        if is_latest_occurrence(after_ordered, i) && entry_is_news(before, current) {
            assert(is_changed_latest(before@, after, i as int));
            return Some(current.duplicate());
        }
    }
    None
}

/// The entries of `after_ordered` that `before_ordered` cannot account for,
/// in the order in which they stand in `after_ordered`. An entry that occurs
/// more often after than before is added once for each further occurrence.
pub fn added_entries(before_ordered: &[HistEntry], after_ordered: &[HistEntry]) -> (out: Vec<
    HistEntry,
>)
    ensures
        entry_views(out@) == added(entry_views(before_ordered@), entry_views(after_ordered@)),
{
    let ghost before = entry_views(before_ordered@);
    let ghost after = entry_views(after_ordered@);
    let mut pool: Vec<HistEntry> = Vec::new();
    let mut b: usize = 0;
    while b < before_ordered.len()
        invariant
            b <= before_ordered.len(),
            before == entry_views(before_ordered@),
            entry_views(pool@) == before.take(b as int),
        decreases before_ordered.len() - b,
    {
        let ghost prev = entry_views(pool@);
        pool.push(before_ordered[b].duplicate());
        b += 1;
        assert(entry_views(pool@) =~= prev.push(before[b - 1]));
        assert(before.take(b as int) =~= before.take(b - 1).push(before[b - 1]));
    }
    assert(before.take(b as int) =~= before);
    let mut out: Vec<HistEntry> = Vec::new();
    let mut i: usize = 0;
    assert(after.skip(0) =~= after);
    assert(entry_views(out@) + unmatched(entry_views(pool@).to_multiset(), after.skip(0))
        =~= added(before, after));
    while i < after_ordered.len()
        invariant
            i <= after_ordered.len(),
            after == entry_views(after_ordered@),
            added(before, after) == entry_views(out@) + unmatched(
                entry_views(pool@).to_multiset(),
                after.skip(i as int),
            ),
        decreases after_ordered.len() - i,
    {
        let current = &after_ordered[i];
        let ghost rest = after.skip(i as int);
        let ghost p = entry_views(pool@);
        proof {
            assert(rest[0] == current@);
            assert(rest.drop_first() =~= after.skip(i + 1));
        }
        let mut j: usize = 0;
        let mut found: Option<usize> = None;
        while j < pool.len() && found.is_none()
            invariant
                j <= pool.len(),
                p == entry_views(pool@),
                forall|k: int| 0 <= k < j && found is None ==> (#[trigger] p[k]) != current@,
                match found {
                    Some(f) => f < pool.len() && p[f as int] == current@,
                    None => true,
                },
            decreases pool.len() - j + (if found is None { 1int } else { 0int }),
        {
            if pool[j].same_as(current) {
                found = Some(j);
            } else {
                j += 1;
            }
        }
        match found {
            Some(f) => {
                proof {
                    to_multiset_contains(p, current@);
                    assert(p.contains(current@));
                    to_multiset_remove(p, f as int);
                }
                pool.remove(f);
                assert(entry_views(pool@) =~= p.remove(f as int));
            },
            None => {
                proof {
                    to_multiset_contains(p, current@);
                    assert(!p.contains(current@));
                }
                let ghost prev = entry_views(out@);
                out.push(current.duplicate());
                assert(entry_views(out@) =~= prev.push(current@));
                assert(prev.push(current@) + unmatched(p.to_multiset(), after.skip(i + 1)) =~= prev
                    + (seq![current@] + unmatched(p.to_multiset(), after.skip(i + 1))));
            },
        }
        i += 1;
    }
    assert(after.skip(i as int) =~= Seq::<Entry>::empty());
    assert(entry_views(out@) + Seq::<Entry>::empty() =~= entry_views(out@));
    out
}

/// Of the added entries, the last one whose state in `before` is missing or
/// differs; where every added entry repeats what `before` records, the last
/// added entry; nothing where nothing was added.
pub fn detect_latest_added_entry(
    before: &TextMap<HistEntry>,
    before_ordered: &[HistEntry],
    after_ordered: &[HistEntry],
) -> (out: Option<HistEntry>)
    requires
        before.wf(),
    ensures
        same_entry(
            out,
            latest_added_entry(
                before@,
                entry_views(before_ordered@),
                entry_views(after_ordered@),
            ),
        ),
{
    let fresh = added_entries(before_ordered, after_ordered);
    let ghost s = entry_views(fresh@);
    let n = fresh.len();
    if n == 0 {
        return None;
    }
    let mut i: usize = n;
    while i > 0
        invariant
            i <= n == fresh.len(),
            s == entry_views(fresh@),
            s == added(entry_views(before_ordered@), entry_views(after_ordered@)),
            before.wf(),
            forall|k: int| i <= k < n ==> !is_news(before@, #[trigger] s[k]),
        decreases i,
    {
        i -= 1;
        if entry_is_news(before, &fresh[i]) {
            proof {
                assert(is_last_news(before@, s, i as int));
                let c = choose|c: int| is_last_news(before@, s, c);
                assert(is_news(before@, s[c]));
                assert(c == i);
                assert(s[i as int] == fresh@[i as int]@);
            }
            return Some(fresh[i].duplicate());
        }
    }
    Some(fresh[n - 1].duplicate())
}

/// The watched entry as the history file alone shows it: the latest added
/// entry, or else the changed latest.
pub fn detect_latest_watch_event(
    before: &TextMap<HistEntry>,
    before_ordered: &[HistEntry],
    after_ordered: &[HistEntry],
) -> (out: Option<HistEntry>)
    requires
        before.wf(),
    ensures
        same_entry(
            out,
            latest_watch_event(
                before@,
                entry_views(before_ordered@),
                entry_views(after_ordered@),
            ),
        ),
{
    match detect_latest_added_entry(before, before_ordered, after_ordered) {
        Some(e) => Some(e),
        None => detect_changed_latest(before, after_ordered),
    }
}

/// Whether the file's length or modification time changed, or the file came
/// into being or went away.
pub fn history_file_touched(before: Option<HistFileSig>, after: Option<HistFileSig>) -> (b: bool)
    ensures
        b == (before != after),
{
    match (before, after) {
        (None, None) => false,
        (Some(x), Some(y)) => x.len != y.len || x.modified_ns != y.modified_ns,
        _ => true,
    }
}

/// Whether two sequences of entries hold the same entries in the same order.
pub fn same_entries(a: &[HistEntry], b: &[HistEntry]) -> (r: bool)
    ensures
        r == (entry_views(a@) == entry_views(b@)),
{
    if a.len() != b.len() {
        assert(entry_views(a@).len() != entry_views(b@).len());
        return false;
    }
    let mut i: usize = 0;
    while i < a.len()
        invariant
            i <= a.len() == b.len(),
            forall|k: int| 0 <= k < i ==> (#[trigger] a@[k])@ == b@[k]@,
        decreases a.len() - i,
    {
        if !a[i].same_as(&b[i]) {
            assert(entry_views(a@)[i as int] != entry_views(b@)[i as int]);
            return false;
        }
        i += 1;
    }
    assert(entry_views(a@) =~= entry_views(b@));
    true
}

/// What a run of the playback program did to the history file.
#[derive(Debug, Clone)]
pub enum Detection {
    /// This entry was watched.
    Watched(HistEntry),
    /// The file changed, and no watched entry can be told from it.
    Ambiguous,
    /// Nothing changed.
    Unchanged,
}

/// What a `Detection` stands for.
pub enum Detected {
    Watched(Entry),
    Ambiguous,
    Unchanged,
}

impl View for Detection {
    type V = Detected;

    open spec fn view(&self) -> Detected {
        match self {
            Detection::Watched(e) => Detected::Watched(e@),
            Detection::Ambiguous => Detected::Ambiguous,
            Detection::Unchanged => Detected::Unchanged,
        }
    }
}

/// The conclusion of a run: the watched entry where one was found; else an
/// ambiguous change where the file was touched and its entries differ; else
/// no change.
pub open spec fn conclusion(
    event: Option<Entry>,
    before_sig: Option<HistFileSig>,
    after_sig: Option<HistFileSig>,
    before_ordered: Seq<Entry>,
    after_ordered: Seq<Entry>,
) -> Detected {
    match event {
        Some(e) => Detected::Watched(e),
        None => if before_sig != after_sig && before_ordered != after_ordered {
            Detected::Ambiguous
        } else {
            Detected::Unchanged
        },
    }
}

/// The watched entry as two snapshots of the history file show it: the
/// latest added entry, or else the changed latest.
pub fn detect(before: &HistorySnapshot, after: &HistorySnapshot) -> (out: Option<HistEntry>)
    requires
        before.entries.wf(),
    ensures
        same_entry(
            out,
            latest_watch_event(
                before.entries@,
                entry_views(before.ordered_entries@),
                entry_views(after.ordered_entries@),
            ),
        ),
{
    detect_latest_watch_event(
        &before.entries,
        before.ordered_entries.as_slice(),
        after.ordered_entries.as_slice(),
    )
}

/// Concludes a run from the watched entry that the history file or the
/// system log gave, if any, and the two snapshots.
pub fn conclude(before: &HistorySnapshot, after: &HistorySnapshot, event: Option<HistEntry>) -> (out:
    Detection)
    ensures
        out@ == conclusion(
            match event {
                Some(e) => Some(e@),
                None => None,
            },
            before.signature,
            after.signature,
            entry_views(before.ordered_entries@),
            entry_views(after.ordered_entries@),
        ),
{
    match event {
        Some(e) => Detection::Watched(e),
        None => {
            if history_file_touched(before.signature, after.signature) && !same_entries(
                before.ordered_entries.as_slice(),
                after.ordered_entries.as_slice(),
            ) {
                Detection::Ambiguous
            } else {
                Detection::Unchanged
            }
        },
    }
}

} // verus!
