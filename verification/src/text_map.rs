//! A map keyed by text, in the order in which the keys came.

use vstd::prelude::*;

use crate::text::same_text;

verus! {

/// A map from texts to values. No two keys hold the same text.
pub struct TextMap<V> {
    entries: Vec<(String, V)>,
}

impl<V> TextMap<V> {
    /// No two entries share a key.
    pub closed spec fn wf(&self) -> bool {
        forall|i: int, j: int|
            0 <= i < j < self.entries@.len() ==> (#[trigger] self.entries@[i]).0@ != (
            #[trigger] self.entries@[j]).0@
    }

    /// Whether the entry at `i` has the key `k`.
    spec fn holds(&self, i: int, k: Seq<char>) -> bool {
        0 <= i < self.entries@.len() && self.entries@[i].0@ == k
    }

    /// The map that the entries stand for.
    pub closed spec fn view(&self) -> Map<Seq<char>, V> {
        Map::new(
            |k: Seq<char>| exists|i: int| self.holds(i, k),
            |k: Seq<char>| self.entries@[choose|i: int| self.holds(i, k)].1,
        )
    }

    /// The keys, in order.
    pub closed spec fn key_seq(&self) -> Seq<Seq<char>> {
        self.entries@.map_values(|e: (String, V)| e.0@)
    }

    proof fn lemma_entry(&self, i: int)
        requires
            self.wf(),
            0 <= i < self.entries@.len(),
        ensures
            self.view().contains_key(self.entries@[i].0@),
            self.view()[self.entries@[i].0@] == self.entries@[i].1,
    {
        let k = self.entries@[i].0@;
        assert(self.holds(i, k));
        let j = choose|j: int| self.holds(j, k);
        assert(self.holds(j, k));
        assert(i == j);
    }

    /// The listed keys are exactly the keys of the map, each listed once.
    pub proof fn lemma_keys(&self)
        ensures
            self.wf() ==> self.key_seq().no_duplicates(),
            forall|k: Seq<char>|
                #![trigger self.key_seq().contains(k)]
                self.key_seq().contains(k) <==> self.view().contains_key(k),
    {
        assert forall|k: Seq<char>|
            self.key_seq().contains(k) <==> self.view().contains_key(k) by {
            if self.key_seq().contains(k) {
                let i = choose|i: int| 0 <= i < self.key_seq().len() && self.key_seq()[i] == k;
                assert(self.holds(i, k));
            }
            if self.view().contains_key(k) {
                let i = choose|i: int| self.holds(i, k);
                assert(self.key_seq()[i] == k);
            }
        }
    }

    /// A map without entries.
    pub fn new() -> (m: Self)
        ensures
            m.wf(),
            m@ == Map::<Seq<char>, V>::empty(),
            m.key_seq() == Seq::<Seq<char>>::empty(),
    {
        let m = TextMap { entries: Vec::new() };
        assert(m@ =~= Map::<Seq<char>, V>::empty());
        assert(m.key_seq() =~= Seq::empty());
        m
    }

    /// How many keys there are.
    pub fn len(&self) -> (n: usize)
        ensures
            n == self.key_seq().len(),
    {
        self.entries.len()
    }

    /// The key at position `i`.
    pub fn key_at(&self, i: usize) -> (k: &String)
        requires
            i < self.key_seq().len(),
        ensures
            k@ == self.key_seq()[i as int],
    {
        &self.entries[i].0
    }

    /// Where the key stands among the entries.
    fn position(&self, key: &str) -> (r: Option<usize>)
        requires
            self.wf(),
        ensures
            match r {
                Some(i) => self.holds(i as int, key@),
                None => !self.view().contains_key(key@),
            },
    {
        let mut i: usize = 0;
        while i < self.entries.len()
            invariant
                i <= self.entries@.len(),
                forall|j: int| 0 <= j < i ==> !self.holds(j, key@),
            decreases self.entries@.len() - i,
        {
            if same_text(self.entries[i].0.as_str(), key) {
                return Some(i);
            }
            i = i + 1;
        }
        None
    }

    /// The value under a key.
    pub fn get(&self, key: &str) -> (r: Option<&V>)
        requires
            self.wf(),
        ensures
            match r {
                Some(v) => self@.contains_key(key@) && *v == self@[key@],
                None => !self@.contains_key(key@),
            },
    {
        match self.position(key) {
            Some(i) => {
                proof {
                    self.lemma_entry(i as int);
                }
                Some(&self.entries[i].1)
            },
            None => None,
        }
    }

    /// Put a value under a key, in place of the one that was there.
    pub fn insert(&mut self, key: String, value: V)
        requires
            old(self).wf(),
        ensures
            final(self).wf(),
            final(self)@ == old(self)@.insert(key@, value),
    {
        let ghost before = *self;
        let ghost k = key@;
        match self.position(key.as_str()) {
            Some(i) => {
                self.entries.set(i, (key, value));
                proof {
                    assert forall|j: int| 0 <= j < before.entries@.len() implies (
                    #[trigger] self.entries@[j]).0@ == before.entries@[j].0@ by {}
                    assert forall|q: Seq<char>| self.view().contains_key(q) <==> before.view()
                        .insert(k, value).contains_key(q) by {
                        if self.view().contains_key(q) {
                            let j = choose|j: int| self.holds(j, q);
                            assert(before.holds(j, q));
                        }
                        if before.view().contains_key(q) {
                            let j = choose|j: int| before.holds(j, q);
                            assert(self.holds(j, q));
                        }
                        assert(self.holds(i as int, k));
                    }
                    assert forall|q: Seq<char>| #[trigger]
                        self.view().contains_key(q) implies self.view()[q] == before.view().insert(
                        k,
                        value,
                    )[q] by {
                        let j = choose|j: int| self.holds(j, q);
                        self.lemma_entry(j);
                        before.lemma_entry(j);
                    }
                    assert(self.view() =~= before.view().insert(k, value));
                }
            },
            None => {
                self.entries.push((key, value));
                proof {
                    let n = before.entries@.len() as int;
                    assert forall|j: int| 0 <= j < n implies #[trigger] self.entries@[j]
                        == before.entries@[j] by {}
                    assert forall|j: int| 0 <= j < n implies (
                    #[trigger] before.entries@[j]).0@ != k by {
                        before.lemma_entry(j);
                    }
                    assert(self.wf());
                    assert forall|q: Seq<char>| self.view().contains_key(q) <==> before.view()
                        .insert(k, value).contains_key(q) by {
                        if self.view().contains_key(q) {
                            let j = choose|j: int| self.holds(j, q);
                            if j < n {
                                assert(before.holds(j, q));
                            }
                        }
                        if before.view().contains_key(q) {
                            let j = choose|j: int| before.holds(j, q);
                            assert(self.holds(j, q));
                        }
                        assert(self.holds(n, k));
                    }
                    assert forall|q: Seq<char>| #[trigger]
                        self.view().contains_key(q) implies self.view()[q] == before.view().insert(
                        k,
                        value,
                    )[q] by {
                        let j = choose|j: int| self.holds(j, q);
                        self.lemma_entry(j);
                        if j < n {
                            before.lemma_entry(j);
                        }
                    }
                    assert(self.view() =~= before.view().insert(k, value));
                }
            },
        }
    }

    /// Drop a key, if it is there.
    pub fn remove(&mut self, key: &str)
        requires
            old(self).wf(),
        ensures
            final(self).wf(),
            final(self)@ == old(self)@.remove(key@),
    {
        let ghost before = *self;
        match self.position(key) {
            Some(i) => {
                let dropped = self.entries.remove(i);
                proof {
                    let at = i as int;
                    let n = self.entries@.len() as int;
                    assert forall|j: int| 0 <= j < n implies #[trigger] self.entries@[j]
                        == before.entries@[if j < at { j } else { j + 1 }] by {}
                    assert(self.wf());
                    assert forall|q: Seq<char>| self.view().contains_key(q) <==> before.view()
                        .remove(key@).contains_key(q) by {
                        if self.view().contains_key(q) {
                            let j = choose|j: int| self.holds(j, q);
                            assert(before.holds(if j < at { j } else { j + 1 }, q));
                            assert(before.holds(at, key@));
                        }
                        if before.view().contains_key(q) && q != key@ {
                            let j = choose|j: int| before.holds(j, q);
                            assert(j != at);
                            assert(self.holds(if j < at { j } else { j - 1 }, q));
                        }
                    }
                    assert forall|q: Seq<char>| #[trigger]
                        self.view().contains_key(q) implies self.view()[q] == before.view().remove(
                        key@,
                    )[q] by {
                        let j = choose|j: int| self.holds(j, q);
                        self.lemma_entry(j);
                        before.lemma_entry(if j < at { j } else { j + 1 });
                    }
                    assert(self.view() =~= before.view().remove(key@));
                }
            },
            None => {
                assert(self.view() =~= before.view().remove(key@));
            },
        }
    }
}

} // verus!
