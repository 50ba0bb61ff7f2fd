//! A map from an origin id to the state kept for that origin.

use vstd::prelude::*;

use crate::text::same_text;

verus! {

/// The entries as a map. Where an origin occurred twice, the last entry would
/// decide.
pub open spec fn entries_map<V>(entries: Seq<(String, V)>) -> Map<Seq<char>, V>
    decreases entries.len(),
{
    if entries.len() == 0 {
        Map::empty()
    } else {
        entries_map(entries.drop_last()).insert(entries.last().0@, entries.last().1)
    }
}

/// No origin occurs in two entries.
pub open spec fn distinct_origins<V>(entries: Seq<(String, V)>) -> bool {
    forall|i: int, j: int|
        0 <= i < j < entries.len() ==> #[trigger] entries[i].0@ != #[trigger] entries[j].0@
}

proof fn lemma_entries_map<V>(entries: Seq<(String, V)>)
    requires
        distinct_origins(entries),
    ensures
        forall|key: Seq<char>| #[trigger]
            entries_map(entries).contains_key(key) <==> exists|i: int|
                0 <= i < entries.len() && #[trigger] entries[i].0@ == key,
        forall|i: int|
            0 <= i < entries.len() ==> #[trigger] entries_map(entries)[entries[i].0@]
                == entries[i].1,
    decreases entries.len(),
{
    if entries.len() > 0 {
        let rest = entries.drop_last();
        assert(forall|i: int| 0 <= i < rest.len() ==> rest[i] == entries[i]);
        assert(distinct_origins(rest)) by {
            assert forall|i: int, j: int| 0 <= i < j < rest.len() implies #[trigger] rest[i].0@
                != #[trigger] rest[j].0@ by {
                assert(entries[i].0@ != entries[j].0@);
            }
        }
        lemma_entries_map(rest);
        assert(entries_map(entries) == entries_map(rest).insert(
            entries.last().0@,
            entries.last().1,
        ));
        assert forall|key: Seq<char>|
            (#[trigger] entries_map(entries).contains_key(key)) == (exists|i: int|
                0 <= i < entries.len() && #[trigger] entries[i].0@ == key) by {
            if entries_map(entries).contains_key(key) {
                if key == entries.last().0@ {
                    assert(entries[entries.len() - 1].0@ == key);
                } else {
                    assert(entries_map(rest).contains_key(key));
                    let i = choose|i: int| 0 <= i < rest.len() && #[trigger] rest[i].0@ == key;
                    assert(entries[i].0@ == key);
                }
            }
            if exists|i: int| 0 <= i < entries.len() && #[trigger] entries[i].0@ == key {
                let i = choose|i: int| 0 <= i < entries.len() && #[trigger] entries[i].0@ == key;
                if i < rest.len() {
                    assert(rest[i].0@ == key);
                }
            }
        }
        assert forall|i: int| 0 <= i < entries.len() implies #[trigger] entries_map(
            entries,
        )[entries[i].0@] == entries[i].1 by {
            if i < rest.len() {
                assert(rest[i] == entries[i]);
                assert(entries[i].0@ != entries[entries.len() - 1].0@);
            }
        }
    }
}

/// Per-origin state. No origin occurs twice.
#[derive(Debug)]
pub struct OriginMap<V> {
    entries: Vec<(String, V)>,
}

impl<V> View for OriginMap<V> {
    type V = Map<Seq<char>, V>;

    closed spec fn view(&self) -> Map<Seq<char>, V> {
        entries_map(self.entries@)
    }
}

impl<V> OriginMap<V> {
    #[verifier::type_invariant]
    spec fn origins_are_distinct(self) -> bool {
        distinct_origins(self.entries@)
    }

    /// A map without entries.
    pub fn new() -> (map: Self)
        ensures
            map@ == Map::<Seq<char>, V>::empty(),
    {
        OriginMap { entries: Vec::new() }
    }

    fn position(&self, origin_id: &str) -> (found: Option<usize>)
        ensures
            match found {
                Some(index) => index < self.entries@.len() && self.entries@[index as int].0@
                    == origin_id@,
                None => forall|i: int|
                    0 <= i < self.entries@.len() ==> #[trigger] self.entries@[i].0@ != origin_id@,
            },
    {
        let mut index: usize = 0;
        while index < self.entries.len()
            invariant
                index <= self.entries@.len(),
                forall|i: int| 0 <= i < index ==> #[trigger] self.entries@[i].0@ != origin_id@,
            decreases self.entries@.len() - index,
        {
            if same_text(self.entries[index].0.as_str(), origin_id) {
                return Some(index);
            }
            index += 1;
        }
        None
    }

    /// The state of `origin_id`, if there is one.
    pub fn get(&self, origin_id: &str) -> (state: Option<&V>)
        ensures
            match state {
                Some(value) => self@.contains_key(origin_id@) && *value == self@[origin_id@],
                None => !self@.contains_key(origin_id@),
            },
    {
        proof {
            use_type_invariant(self);
            lemma_entries_map(self.entries@);
        }
        match self.position(origin_id) {
            Some(index) => Some(&self.entries[index].1),
            None => None,
        }
    }

    /// Sets the state of `origin_id`.
    pub fn insert(&mut self, origin_id: &str, state: V)
        ensures
            final(self)@ == old(self)@.insert(origin_id@, state),
    {
        proof {
            use_type_invariant(&*self);
            lemma_entries_map(self.entries@);
        }
        let ghost before = self.entries@;
        let found = self.position(origin_id);
        let mut entries: Vec<(String, V)> = Vec::new();
        std::mem::swap(&mut entries, &mut self.entries);
        match found {
            Some(index) => {
                entries.set(index, (origin_id.to_owned(), state));
                proof {
                    assert forall|i: int| 0 <= i < entries@.len() implies #[trigger] entries@[i].0@
                        == before[i].0@ by {}
                    assert(distinct_origins(entries@));
                    lemma_entries_map(entries@);
                    assert(entries_map(entries@) =~= entries_map(before).insert(
                        origin_id@,
                        state,
                    )) by {
                        assert forall|key: Seq<char>|
                            entries_map(entries@).contains_key(key) == entries_map(
                                before,
                            ).insert(origin_id@, state).contains_key(key) by {
                            if entries_map(entries@).contains_key(key) {
                                let i = choose|i: int|
                                    0 <= i < entries@.len() && #[trigger] entries@[i].0@ == key;
                                assert(before[i].0@ == key);
                            }
                            if entries_map(before).contains_key(key) {
                                let i = choose|i: int|
                                    0 <= i < before.len() && #[trigger] before[i].0@ == key;
                                assert(entries@[i].0@ == key);
                            }
                            assert(entries@[index as int].0@ == origin_id@);
                        }
                        assert forall|key: Seq<char>|
                            entries_map(entries@).contains_key(key) implies entries_map(
                            entries@,
                        )[key] == entries_map(before).insert(origin_id@, state)[key] by {
                            let i = choose|i: int|
                                0 <= i < entries@.len() && #[trigger] entries@[i].0@ == key;
                            assert(before[i].0@ == key);
                            assert(entries_map(entries@)[entries@[i].0@] == entries@[i].1);
                            assert(entries_map(before)[before[i].0@] == before[i].1);
                            if i != index {
                                assert(before[i].0@ != before[index as int].0@);
                            }
                        }
                    }
                }
            },
            None => {
                entries.push((origin_id.to_owned(), state));
                proof {
                    assert(entries@.drop_last() =~= before);
                    assert(distinct_origins(entries@)) by {
                        assert forall|i: int, j: int|
                            0 <= i < j
                                < entries@.len() implies #[trigger] entries@[i].0@
                            != #[trigger] entries@[j].0@ by {
                            assert(entries@[i] == before[i]);
                        }
                    }
                }
            },
        }
        self.entries = entries;
    }

    /// Takes the state of `origin_id` out.
    pub fn remove(&mut self, origin_id: &str) -> (state: Option<V>)
        ensures
            match state {
                Some(value) => old(self)@.contains_key(origin_id@) && value
                    == old(self)@[origin_id@] && final(self)@ == old(self)@.remove(origin_id@),
                None => !old(self)@.contains_key(origin_id@) && final(self)@ == old(self)@,
            },
    {
        proof {
            use_type_invariant(&*self);
            lemma_entries_map(self.entries@);
        }
        let ghost before = self.entries@;
        let found = self.position(origin_id);
        match found {
            Some(index) => {
                let mut entries: Vec<(String, V)> = Vec::new();
                std::mem::swap(&mut entries, &mut self.entries);
                let removed = entries.remove(index);
                proof {
                    let after = entries@;
                    assert(after =~= before.remove(index as int));
                    assert forall|i: int| 0 <= i < after.len() implies #[trigger] after[i]
                        == before[if i < index { i } else { i + 1 }] by {}
                    assert(distinct_origins(after)) by {
                        assert forall|i: int, j: int|
                            0 <= i < j < after.len() implies #[trigger] after[i].0@
                            != #[trigger] after[j].0@ by {
                            let a = if i < index { i } else { i + 1 };
                            let b = if j < index { j } else { j + 1 };
                            assert(before[a].0@ != before[b].0@);
                        }
                    }
                    lemma_entries_map(after);
                    assert(entries_map(after) =~= entries_map(before).remove(origin_id@)) by {
                        assert forall|key: Seq<char>|
                            entries_map(after).contains_key(key) == entries_map(before).remove(
                                origin_id@,
                            ).contains_key(key) by {
                            if entries_map(after).contains_key(key) {
                                let i = choose|i: int|
                                    0 <= i < after.len() && #[trigger] after[i].0@ == key;
                                let a = if i < index { i } else { i + 1 };
                                assert(before[a].0@ == key);
                                assert(before[a].0@ != before[index as int].0@);
                            }
                            if entries_map(before).contains_key(key) && key != origin_id@ {
                                let i = choose|i: int|
                                    0 <= i < before.len() && #[trigger] before[i].0@ == key;
                                let a = if i < index { i } else { i - 1 };
                                assert(after[a].0@ == key);
                            }
                        }
                        assert forall|key: Seq<char>|
                            entries_map(after).contains_key(key) implies entries_map(after)[key]
                            == entries_map(before).remove(origin_id@)[key] by {
                            let i = choose|i: int|
                                0 <= i < after.len() && #[trigger] after[i].0@ == key;
                            let a = if i < index { i } else { i + 1 };
                            assert(entries_map(after)[after[i].0@] == after[i].1);
                            assert(entries_map(before)[before[a].0@] == before[a].1);
                            assert(before[a].0@ != before[index as int].0@);
                        }
                    }
                    assert(entries_map(before)[before[index as int].0@] == removed.1);
                }
                self.entries = entries;
                Some(removed.1)
            },
            None => None,
        }
    }
}

impl<V> Default for OriginMap<V> {
    fn default() -> (map: Self)
        ensures
            map@ == Map::<Seq<char>, V>::empty(),
    {
        OriginMap::new()
    }
}

} // verus!
