//! A mapping from text keys to version numbers, as a runtime reports its
//! entry-point APIs.

use crate::json::str_eq;
use vstd::prelude::*;

verus! {

/// The mapping that a list of entries writes: a later entry replaces an
/// earlier one with the same key.
pub open spec fn map_of(entries: Seq<(Seq<char>, u32)>) -> Map<Seq<char>, u32>
    decreases entries.len(),
{
    if entries.len() == 0 {
        Map::empty()
    } else {
        map_of(entries.drop_last()).insert(entries.last().0, entries.last().1)
    }
}

/// The entries of a stored list, keys by their characters.
pub open spec fn entries_of(stored: Seq<(String, u32)>) -> Seq<(Seq<char>, u32)> {
    Seq::new(stored.len(), |i: int| (stored[i].0@, stored[i].1))
}

/// Whether no key occurs twice.
pub open spec fn distinct_keys(entries: Seq<(Seq<char>, u32)>) -> bool {
    forall|i: int, j: int|
        0 <= i < j < entries.len() ==> (#[trigger] entries[i]).0 != (#[trigger] entries[j]).0
}

/// Where no key occurs twice, none occurs twice among all entries but the
/// last.
pub proof fn lemma_distinct_front(entries: Seq<(Seq<char>, u32)>)
    requires
        distinct_keys(entries),
        entries.len() > 0,
    ensures
        distinct_keys(entries.drop_last()),
{
    let front = entries.drop_last();
    assert forall|a: int, b: int| 0 <= a < b < front.len() implies (#[trigger] front[a]).0
        != (#[trigger] front[b]).0 by {
        assert(entries[a].0 != entries[b].0);
    }
}

/// A key is in the mapping exactly when an entry has it.
pub proof fn lemma_map_of_keys(entries: Seq<(Seq<char>, u32)>, key: Seq<char>)
    ensures
        map_of(entries).contains_key(key) <==> exists|i: int|
            0 <= i < entries.len() && (#[trigger] entries[i]).0 == key,
    decreases entries.len(),
{
    if entries.len() > 0 {
        let front = entries.drop_last();
        lemma_map_of_keys(front, key);
        if map_of(entries).contains_key(key) {
            if entries.last().0 == key {
                assert(entries[entries.len() - 1].0 == key);
            } else {
                let i = choose|i: int| 0 <= i < front.len() && (#[trigger] front[i]).0 == key;
                assert(entries[i].0 == key);
            }
        }
        if exists|i: int| 0 <= i < entries.len() && (#[trigger] entries[i]).0 == key {
            let i = choose|i: int| 0 <= i < entries.len() && (#[trigger] entries[i]).0 == key;
            if i < entries.len() - 1 {
                assert(front[i].0 == key);
            }
        }
    }
}

/// Where no key occurs twice, each entry's key is mapped to its value.
pub proof fn lemma_map_of_value(entries: Seq<(Seq<char>, u32)>, i: int)
    requires
        distinct_keys(entries),
        0 <= i < entries.len(),
    ensures
        map_of(entries).contains_key(entries[i].0),
        map_of(entries)[entries[i].0] == entries[i].1,
    decreases entries.len(),
{
    let front = entries.drop_last();
    if i < entries.len() - 1 {
        lemma_distinct_front(entries);
        lemma_map_of_value(front, i);
        assert(entries[i].0 != entries[entries.len() - 1].0);
        assert(front[i] == entries[i]);
    }
}

/// Replacing the value of an entry maps its key to the new value and leaves
/// every other key as it was.
pub proof fn lemma_map_of_update(entries: Seq<(Seq<char>, u32)>, i: int, value: u32)
    requires
        distinct_keys(entries),
        0 <= i < entries.len(),
    ensures
        map_of(entries.update(i, (entries[i].0, value))) == map_of(entries).insert(
            entries[i].0,
            value,
        ),
    decreases entries.len(),
{
    let key = entries[i].0;
    let updated = entries.update(i, (key, value));
    let front = entries.drop_last();
    if i == entries.len() - 1 {
        assert(updated.drop_last() =~= front);
        assert(map_of(updated) =~= map_of(entries).insert(key, value));
    } else {
        lemma_distinct_front(entries);
        lemma_map_of_update(front, i, value);
        assert(front[i] == entries[i]);
        assert(updated.drop_last() =~= front.update(i, (key, value)));
        assert(entries[i].0 != entries[entries.len() - 1].0);
        assert(map_of(updated) =~= map_of(entries).insert(key, value));
    }
}

/// Where no key occurs twice, the mapping has as many keys as there are
/// entries.
pub proof fn lemma_map_of_len(entries: Seq<(Seq<char>, u32)>)
    requires
        distinct_keys(entries),
    ensures
        map_of(entries).dom().finite(),
        map_of(entries).dom().len() == entries.len(),
    decreases entries.len(),
{
    if entries.len() > 0 {
        let front = entries.drop_last();
        lemma_distinct_front(entries);
        lemma_map_of_len(front);
        lemma_map_of_keys(front, entries.last().0);
        if map_of(front).contains_key(entries.last().0) {
            let i = choose|i: int| 0 <= i < front.len() && (#[trigger] front[i]).0 == entries.last().0;
            assert(entries[i].0 != entries[entries.len() - 1].0);
        }
        assert(map_of(entries).dom() =~= map_of(front).dom().insert(entries.last().0));
    }
}

/// A mapping from text keys to version numbers. No key is held twice, and
/// the order in which keys came does not tell two mappings apart.
#[derive(Debug)]
pub struct ApiMap {
    entries: Vec<(String, u32)>,
}

impl View for ApiMap {
    type V = Map<Seq<char>, u32>;

    closed spec fn view(&self) -> Map<Seq<char>, u32> {
        map_of(entries_of(self.entries@))
    }
}

impl ApiMap {
    #[verifier::type_invariant]
    spec fn well_formed(self) -> bool {
        distinct_keys(entries_of(self.entries@))
    }

    /// The empty mapping.
    pub fn new() -> (map: ApiMap)
        ensures
            map@ == Map::<Seq<char>, u32>::empty(),
    {
        let entries: Vec<(String, u32)> = Vec::new();
        assert(entries_of(entries@) =~= Seq::empty());
        ApiMap { entries }
    }

    /// The place of a key among the entries.
    fn position(&self, key: &str) -> (r: Option<usize>)
        ensures
            match r {
                Some(i) => i < self.entries@.len() && self.entries@[i as int].0@ == key@,
                None => forall|j: int|
                    0 <= j < self.entries@.len() ==> (#[trigger] self.entries@[j]).0@ != key@,
            },
    {
        let mut i: usize = 0;
        while i < self.entries.len()
            invariant
                i <= self.entries.len(),
                forall|j: int| 0 <= j < i ==> (#[trigger] self.entries@[j]).0@ != key@,
            decreases self.entries.len() - i,
        {
            if str_eq(self.entries[i].0.as_str(), key) {
                return Some(i);
            }
            i = i + 1;
        }
        None
    }

    /// The version that a key is mapped to.
    pub fn get(&self, key: &str) -> (r: Option<u32>)
        ensures
            match r {
                Some(version) => self@.contains_key(key@) && self@[key@] == version,
                None => !self@.contains_key(key@),
            },
    {
        proof {
            use_type_invariant(self);
            lemma_map_of_keys(entries_of(self.entries@), key@);
        }
        match self.position(key) {
            Some(i) => {
                proof {
                    assert(entries_of(self.entries@)[i as int].0 == key@);
                    lemma_map_of_value(entries_of(self.entries@), i as int);
                }
                Some(self.entries[i].1)
            },
            None => {
                proof {
                    let all = entries_of(self.entries@);
                    assert forall|j: int| 0 <= j < all.len() implies (#[trigger] all[j]).0
                        != key@ by {
                        assert(self.entries@[j].0@ != key@);
                    }
                }
                None
            },
        }
    }

    /// Whether a key is mapped.
    pub fn contains_key(&self, key: &str) -> (r: bool)
        ensures
            r == self@.contains_key(key@),
    {
        self.get(key).is_some()
    }

    /// Maps a key to a version, in place of the version it had.
    pub fn insert(&mut self, key: String, version: u32)
        ensures
            final(self)@ == old(self)@.insert(key@, version),
    {
        proof {
            use_type_invariant(&*self);
        }
        let ghost before = entries_of(self.entries@);
        let found = self.position(key.as_str());
        let mut entries: Vec<(String, u32)> = Vec::new();
        assert(entries_of(entries@) =~= Seq::empty());
        std::mem::swap(&mut self.entries, &mut entries);
        match found {
            Some(i) => {
                proof {
                    assert(before[i as int].0 == key@);
                    lemma_map_of_update(before, i as int, version);
                }
                entries.set(i, (key, version));
                proof {
                    let after = entries_of(entries@);
                    assert(after =~= before.update(i as int, (key@, version)));
                    assert forall|a: int, b: int| 0 <= a < b < after.len() implies (
                    #[trigger] after[a]).0 != (#[trigger] after[b]).0 by {
                        assert(before[a].0 != before[b].0);
                    }
                }
            },
            None => {
                entries.push((key, version));
                proof {
                    let after = entries_of(entries@);
                    assert(after.drop_last() =~= before);
                    assert forall|a: int, b: int| 0 <= a < b < after.len() implies (
                    #[trigger] after[a]).0 != (#[trigger] after[b]).0 by {
                        if b < before.len() {
                            assert(before[a].0 != before[b].0);
                        } else {
                            assert(old(self).entries@[a].0@ != key@);
                        }
                    }
                }
            },
        }
        self.entries = entries;
    }

    /// The number of keys.
    pub fn len(&self) -> (n: usize)
        ensures
            self@.dom().finite(),
            n == self@.dom().len(),
    {
        proof {
            use_type_invariant(self);
            lemma_map_of_len(entries_of(self.entries@));
        }
        self.entries.len()
    }

    /// The keys, each once, in no order that callers may rely on.
    pub fn keys(&self) -> (keys: Vec<String>)
        ensures
            keys@.len() == self@.dom().len(),
            forall|i: int| 0 <= i < keys@.len() ==> self@.contains_key(#[trigger] keys@[i]@),
            forall|i: int, j: int|
                0 <= i < j < keys@.len() ==> (#[trigger] keys@[i])@ != (#[trigger] keys@[j])@,
    {
        proof {
            use_type_invariant(self);
            lemma_map_of_len(entries_of(self.entries@));
        }
        let ghost all = entries_of(self.entries@);
        let mut keys: Vec<String> = Vec::new();
        let mut i: usize = 0;
        while i < self.entries.len()
            invariant
                i <= self.entries.len(),
                all == entries_of(self.entries@),
                keys@.len() == i,
                forall|j: int| 0 <= j < i ==> (#[trigger] keys@[j])@ == all[j].0,
            decreases self.entries.len() - i,
        {
            let key = self.entries[i].0.clone();
            keys.push(key);
            i = i + 1;
        }
        proof {
            assert forall|i: int| 0 <= i < keys@.len() implies self@.contains_key(
                #[trigger] keys@[i]@,
            ) by {
                lemma_map_of_value(all, i);
            }
            assert forall|i: int, j: int| 0 <= i < j < keys@.len() implies (#[trigger] keys@[i])@
                != (#[trigger] keys@[j])@ by {
                assert(all[i].0 != all[j].0);
            }
        }
        keys
    }

    /// Whether every key of this mapping is mapped to the same version in
    /// the other.
    fn within(&self, other: &ApiMap) -> (r: bool)
        ensures
            r == forall|key: Seq<char>| #[trigger]
                self@.contains_key(key) ==> other@.contains_key(key) && other@[key] == self@[key],
    {
        proof {
            use_type_invariant(self);
        }
        let ghost all = entries_of(self.entries@);
        let mut i: usize = 0;
        while i < self.entries.len()
            invariant
                i <= self.entries.len(),
                all == entries_of(self.entries@),
                distinct_keys(all),
                forall|j: int|
                    0 <= j < i ==> other@.contains_key((#[trigger] all[j]).0) && other@[all[j].0]
                        == all[j].1,
            decreases self.entries.len() - i,
        {
            let found = other.get(self.entries[i].0.as_str());
            let same = match found {
                Some(version) => version == self.entries[i].1,
                None => false,
            };
            if !same {
                proof {
                    lemma_map_of_value(all, i as int);
                    assert(self@.contains_key(all[i as int].0));
                }
                return false;
            }
            i = i + 1;
        }
        proof {
            assert forall|key: Seq<char>| #[trigger]
                self@.contains_key(key) implies other@.contains_key(key) && other@[key]
                == self@[key] by {
                lemma_map_of_keys(all, key);
                let j = choose|j: int| 0 <= j < all.len() && (#[trigger] all[j]).0 == key;
                lemma_map_of_value(all, j);
            }
        }
        true
    }
}

impl Clone for ApiMap {
    fn clone(&self) -> (copy: ApiMap)
        ensures
            copy@ == self@,
    {
        proof {
            use_type_invariant(self);
        }
        let mut entries: Vec<(String, u32)> = Vec::new();
        let mut i: usize = 0;
        while i < self.entries.len()
            invariant
                i <= self.entries.len(),
                entries@.len() == i,
                forall|j: int|
                    0 <= j < i ==> (#[trigger] entries@[j]).0@ == self.entries@[j].0@
                        && entries@[j].1 == self.entries@[j].1,
            decreases self.entries.len() - i,
        {
            let key = self.entries[i].0.clone();
            entries.push((key, self.entries[i].1));
            i = i + 1;
        }
        assert(entries_of(entries@) =~= entries_of(self.entries@));
        ApiMap { entries }
    }
}

impl PartialEq for ApiMap {
    fn eq(&self, other: &ApiMap) -> (r: bool) {
        let r = self.within(other) && other.within(self);
        proof {
            if r {
                assert(self@ =~= other@);
            }
        }
        r
    }
}

impl vstd::std_specs::cmp::PartialEqSpecImpl for ApiMap {
    open spec fn obeys_eq_spec() -> bool {
        true
    }

    open spec fn eq_spec(&self, other: &ApiMap) -> bool {
        self@ == other@
    }
}

impl Eq for ApiMap {

}

} // verus!
