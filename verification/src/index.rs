//! A small map from text keys to values, kept as two parallel vectors in
//! which no key occurs twice.
use crate::text::{chars_eq, chars_of};
use vstd::prelude::*;

verus! {

/// A map keyed by text. Its view is a `Map` from the key's characters to the
/// view of the value.
pub struct TextMap<V> {
    keys: Vec<Vec<char>>,
    values: Vec<V>,
}

/// No two positions of `keys` hold the same text.
pub open spec fn distinct_keys(keys: Seq<Vec<char>>) -> bool {
    forall|i: int, j: int|
        0 <= i < keys.len() && 0 <= j < keys.len() && i != j ==> (#[trigger] keys[i])@
            != (#[trigger] keys[j])@
}

/// `key` stands at position `i` of `keys`.
pub open spec fn key_at(keys: Seq<Vec<char>>, key: Seq<char>, i: int) -> bool {
    0 <= i < keys.len() && keys[i]@ == key
}

/// The set of the texts in `keys`.
pub open spec fn key_set(keys: Seq<Vec<char>>) -> Set<Seq<char>> {
    Set::new(|k: Seq<char>| exists|i: int| key_at(keys, k, i))
}

proof fn lemma_key_set_len(keys: Seq<Vec<char>>)
    requires
        distinct_keys(keys),
    ensures
        key_set(keys).finite(),
        key_set(keys).len() == keys.len(),
    decreases keys.len(),
{
    if keys.len() == 0 {
        assert(key_set(keys) =~= Set::<Seq<char>>::empty());
    } else {
        let front = keys.drop_last();
        let k = keys.last()@;
        assert forall|i: int, j: int|
            0 <= i < front.len() && 0 <= j < front.len() && i != j implies (#[trigger] front[i])@
            != (#[trigger] front[j])@ by {
            assert(front[i] == keys[i] && front[j] == keys[j]);
        }
        lemma_key_set_len(front);
        assert(!key_set(front).contains(k)) by {
            if key_set(front).contains(k) {
                let i = choose|i: int| key_at(front, k, i);
                assert(keys[i]@ == keys[keys.len() - 1]@);
            }
        }
        assert(key_set(keys) =~= key_set(front).insert(k)) by {
            assert forall|x: Seq<char>| key_set(keys).contains(x) implies key_set(front).insert(
                k,
            ).contains(x) by {
                let i = choose|i: int| key_at(keys, x, i);
                if i < front.len() {
                    assert(key_at(front, x, i));
                }
            }
            assert forall|x: Seq<char>| key_set(front).insert(k).contains(x) implies key_set(
                keys,
            ).contains(x) by {
                if x == k {
                    assert(key_at(keys, x, keys.len() - 1));
                } else {
                    let i = choose|i: int| key_at(front, x, i);
                    assert(key_at(keys, x, i));
                }
            }
        }
    }
}

impl<V: View> TextMap<V> {
    /// The two vectors have one length and no key occurs twice.
    pub closed spec fn wf(&self) -> bool {
        &&& self.keys@.len() == self.values@.len()
        &&& distinct_keys(self.keys@)
    }

    /// The map that the two vectors stand for.
    pub closed spec fn view(&self) -> Map<Seq<char>, V::V> {
        Map::new(
            |k: Seq<char>| exists|i: int| key_at(self.keys@, k, i),
            |k: Seq<char>| self.values@[choose|i: int| key_at(self.keys@, k, i)]@,
        )
    }

    proof fn lemma_lookup(&self, i: int)
        requires
            self.wf(),
            0 <= i < self.keys@.len(),
        ensures
            self@.contains_key(self.keys@[i]@),
            self@[self.keys@[i]@] == self.values@[i]@,
    {
        let k = self.keys@[i]@;
        assert(key_at(self.keys@, k, i));
        let j = choose|j: int| key_at(self.keys@, k, j);
        assert(j == i);
    }

    /// A map without keys.
    pub fn new() -> (m: Self)
        ensures
            m.wf(),
            m@ == Map::<Seq<char>, V::V>::empty(),
    {
        let m = TextMap { keys: Vec::new(), values: Vec::new() };
        assert(m@ =~= Map::<Seq<char>, V::V>::empty());
        m
    }

    /// The number of keys.
    pub fn len(&self) -> (n: usize)
        requires
            self.wf(),
        ensures
            self@.dom().finite(),
            n == self@.dom().len(),
    {
        proof {
            lemma_key_set_len(self.keys@);
            assert(self@.dom() =~= key_set(self.keys@));
        }
        self.keys.len()
    }

    /// Whether the map holds nothing.
    pub fn is_empty(&self) -> (b: bool)
        requires
            self.wf(),
        ensures
            b == (self@ == Map::<Seq<char>, V::V>::empty()),
    {
        proof {
            if self.keys@.len() == 0 {
                assert(self@ =~= Map::<Seq<char>, V::V>::empty());
            } else {
                self.lemma_lookup(0);
            }
        }
        self.keys.len() == 0
    }

    fn position(&self, key: &[char]) -> (r: Option<usize>)
        requires
            self.wf(),
        ensures
            match r {
                Some(i) => key_at(self.keys@, key@, i as int),
                None => !self@.contains_key(key@),
            },
    {
        let mut i: usize = 0;
        while i < self.keys.len()
            invariant
                i <= self.keys@.len(),
                forall|j: int| 0 <= j < i ==> (#[trigger] self.keys@[j])@ != key@,
            decreases self.keys@.len() - i,
        {
            if chars_eq(self.keys[i].as_slice(), key) {
                return Some(i);
            }
            i += 1;
        }
        None
    }

    /// The value stored under `key`, if there is one.
    pub fn get(&self, key: &str) -> (r: Option<&V>)
        requires
            self.wf(),
        ensures
            match r {
                Some(v) => self@.contains_key(key@) && self@[key@] == v@,
                None => !self@.contains_key(key@),
            },
    {
        let k = chars_of(key);
        match self.position(k.as_slice()) {
            Some(i) => {
                proof {
                    self.lemma_lookup(i as int);
                }
                Some(&self.values[i])
            },
            None => None,
        }
    }

    /// Whether a value is stored under `key`.
    pub fn contains_key(&self, key: &str) -> (b: bool)
        requires
            self.wf(),
        ensures
            b == self@.contains_key(key@),
    {
        self.get(key).is_some()
    }

    /// Stores `value` under `key`, in place of what was stored there.
    pub fn insert(&mut self, key: String, value: V)
        requires
            old(self).wf(),
        ensures
            final(self).wf(),
            final(self)@ == old(self)@.insert(key@, value@),
    {
        let k = chars_of(key.as_str());
        let ghost before = *self;
        match self.position(k.as_slice()) {
            Some(i) => {
                self.values.set(i, value);
                proof {
                    let after = *self;
                    assert(after.wf());
                    assert(after@ =~= before@.insert(key@, value@)) by {
                        assert forall|x: Seq<char>| after@.contains_key(x) implies after@[x]
                            == before@.insert(key@, value@)[x] by {
                            let j = choose|j: int| key_at(after.keys@, x, j);
                            after.lemma_lookup(j);
                            before.lemma_lookup(j);
                        }
                        before.lemma_lookup(i as int);
                    }
                }
            },
            None => {
                self.keys.push(k);
                self.values.push(value);
                proof {
                    let after = *self;
                    let n = before.keys@.len() as int;
                    assert(distinct_keys(after.keys@)) by {
                        assert forall|i: int, j: int|
                            0 <= i < after.keys@.len() && 0 <= j < after.keys@.len() && i
                                != j implies (#[trigger] after.keys@[i])@ != (
                        #[trigger] after.keys@[j])@ by {
                            if i < n && j < n {
                                assert(before.keys@[i]@ != before.keys@[j]@);
                            } else if i < n {
                                assert(key_at(before.keys@, before.keys@[i]@, i));
                            } else {
                                assert(key_at(before.keys@, before.keys@[j]@, j));
                            }
                        }
                    }
                    assert(after.wf());
                    assert(after.keys@[n]@ == key@);
                    assert(after.values@[n] == value);
                    assert(!before@.contains_key(key@));
                    let target = before@.insert(key@, value@);
                    assert forall|x: Seq<char>| #[trigger]
                        after@.dom().contains(x) == target.dom().contains(x) by {
                        if after@.dom().contains(x) {
                            let j = choose|j: int| key_at(after.keys@, x, j);
                            if j < n {
                                assert(key_at(before.keys@, x, j));
                            }
                        }
                        if target.dom().contains(x) {
                            if x == key@ {
                                assert(key_at(after.keys@, x, n));
                            } else {
                                let j = choose|j: int| key_at(before.keys@, x, j);
                                assert(key_at(after.keys@, x, j));
                            }
                        }
                    }
                    assert forall|x: Seq<char>| #[trigger]
                        after@.dom().contains(x) implies after@[x] == target[x] by {
                        let j = choose|j: int| key_at(after.keys@, x, j);
                        after.lemma_lookup(j);
                        if j < n {
                            assert(key_at(before.keys@, x, j));
                            before.lemma_lookup(j);
                            assert(after.values@[j] == before.values@[j]);
                        }
                    }
                    assert(after@ =~= target);
                }
            },
        }
    }
}

} // verus!
