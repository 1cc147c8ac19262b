//! The container cache of the storage worker: from the path of a container
//! to the container as the store knows it.

use vstd::prelude::*;
use crate::entities::container::{Container, ContainerView};

verus! {

/// The first position of `keys` that holds `key`, or the length of `keys`
/// where none does.
pub open spec fn slot_of(keys: Seq<Seq<char>>, key: Seq<char>) -> int
    decreases keys.len(),
{
    if keys.len() == 0 {
        0
    } else if keys[0] == key {
        0
    } else {
        1 + slot_of(keys.drop_first(), key)
    }
}

/// The slot of a key lies within the keys or just behind them; a key at
/// that slot is the one asked for, and none before it is.
pub proof fn lemma_slot_of(keys: Seq<Seq<char>>, key: Seq<char>)
    ensures
        0 <= slot_of(keys, key) <= keys.len(),
        slot_of(keys, key) < keys.len() ==> keys[slot_of(keys, key)] == key,
        forall|k: int| 0 <= k < slot_of(keys, key) ==> keys[k] != key,
    decreases keys.len(),
{
    if keys.len() > 0 && keys[0] != key {
        let rest = keys.drop_first();
        lemma_slot_of(rest, key);
        assert forall|k: int| 0 <= k < slot_of(keys, key) implies keys[k] != key by {
            if k > 0 {
                assert(rest[k - 1] == keys[k]);
            }
        }
    }
}

/// A position before which no key is the one asked for, and which holds it
/// or lies just behind the keys, is the slot of that key.
pub proof fn lemma_slot_of_unique(keys: Seq<Seq<char>>, key: Seq<char>, i: int)
    requires
        0 <= i <= keys.len(),
        forall|k: int| 0 <= k < i ==> keys[k] != key,
        i < keys.len() ==> keys[i] == key,
    ensures
        slot_of(keys, key) == i,
{
    lemma_slot_of(keys, key);
}

/// The paths under which the entries are kept, in order.
pub open spec fn keys_of(entries: Seq<(String, Container)>) -> Seq<Seq<char>> {
    Seq::new(entries.len(), |i: int| entries[i].0@)
}

/// The map that a list of entries stands for: a path leads to the first
/// entry kept under it.
pub open spec fn entries_map(entries: Seq<(String, Container)>) -> Map<Seq<char>, ContainerView> {
    Map::new(
        |key: Seq<char>| slot_of(keys_of(entries), key) < entries.len(),
        |key: Seq<char>| entries[slot_of(keys_of(entries), key)].1@,
    )
}

/// `later` holds everything that `earlier` holds, under the same paths.
pub open spec fn extends(
    later: Map<Seq<char>, ContainerView>,
    earlier: Map<Seq<char>, ContainerView>,
) -> bool {
    forall|key: Seq<char>| #[trigger]
        earlier.contains_key(key) ==> later.contains_key(key) && later[key] == earlier[key]
}

/// The containers that the storage worker has resolved so far, by path.
#[derive(Debug)]
pub struct ContainerCache {
    entries: Vec<(String, Container)>,
}

impl View for ContainerCache {
    type V = Map<Seq<char>, ContainerView>;

    closed spec fn view(&self) -> Map<Seq<char>, ContainerView> {
        entries_map(self.entries@)
    }
}

impl ContainerCache {
    /// A cache that holds nothing.
    pub fn new() -> (cache: Self)
        ensures
            cache@ == Map::<Seq<char>, ContainerView>::empty(),
    {
        let cache = ContainerCache { entries: Vec::new() };
        assert(cache@ =~= Map::<Seq<char>, ContainerView>::empty());
        cache
    }

    /// The position of the entry kept under `path`, or the number of
    /// entries where there is none.
    fn find(&self, path: &str) -> (i: usize)
        ensures
            i == slot_of(keys_of(self.entries@), path@),
            i <= self.entries.len(),
    {
        let mut i: usize = 0;
        while i < self.entries.len()
            invariant
                i <= self.entries.len(),
                forall|k: int| 0 <= k < i ==> keys_of(self.entries@)[k] != path@,
            decreases self.entries.len() - i,
        {
            if crate::text::str_eq(self.entries[i].0.as_str(), path) {
                proof {
                    lemma_slot_of_unique(keys_of(self.entries@), path@, i as int);
                }
                return i;
            }
            i = i + 1;
        }
        proof {
            lemma_slot_of_unique(keys_of(self.entries@), path@, i as int);
        }
        i
    }

    /// The container kept under `path`, if there is one.
    pub fn get(&self, path: &str) -> (found: Option<&Container>)
        ensures
            found is Some == self@.contains_key(path@),
            found is Some ==> found->0@ == self@[path@],
    {
        let i = self.find(path);
        if i < self.entries.len() {
            Some(&self.entries[i].1)
        } else {
            None
        }
    }

    /// Keeps `container` under `path`, in place of what was kept there.
    pub fn insert(&mut self, path: String, container: Container)
        ensures
            final(self)@ == old(self)@.insert(path@, container@),
    {
        let i = self.find(path.as_str());
        let ghost before = self.entries@;
        let ghost keys = keys_of(before);
        if i < self.entries.len() {
            self.entries.set(i, (path, container));
            proof {
                let after = self.entries@;
                lemma_slot_of(keys, path@);
                assert(keys[i as int] == path@);
                assert(keys_of(after) =~= keys);
                assert forall|key: Seq<char>| #[trigger]
                    entries_map(after).contains_key(key) == entries_map(before).insert(
                        path@,
                        container@,
                    ).contains_key(key) by {
                    lemma_slot_of(keys, key);
                }
                assert forall|key: Seq<char>| #[trigger]
                    entries_map(after).contains_key(key) implies entries_map(after)[key]
                    == entries_map(before).insert(path@, container@)[key] by {
                    lemma_slot_of(keys, key);
                }
                assert(entries_map(after) =~= entries_map(before).insert(path@, container@));
            }
        } else {
            self.entries.push((path, container));
            proof {
                let after = self.entries@;
                assert(keys_of(after) =~= keys.push(path@));
                assert forall|key: Seq<char>|
                    slot_of(keys_of(after), key) == (if key == path@ || slot_of(keys, key)
                        < keys.len() {
                        slot_of(keys, key)
                    } else {
                        keys.len() as int + 1
                    }) by {
                    lemma_slot_of(keys, key);
                    let s = slot_of(keys, key);
                    if s < keys.len() || key == path@ {
                        lemma_slot_of_unique(keys_of(after), key, s);
                    } else {
                        lemma_slot_of_unique(keys_of(after), key, keys.len() as int + 1);
                    }
                }
                assert forall|key: Seq<char>| #[trigger]
                    entries_map(after).contains_key(key) == entries_map(before).insert(
                        path@,
                        container@,
                    ).contains_key(key) by {
                    lemma_slot_of(keys, key);
                }
                assert forall|key: Seq<char>| #[trigger]
                    entries_map(after).contains_key(key) implies entries_map(after)[key]
                    == entries_map(before).insert(path@, container@)[key] by {
                    lemma_slot_of(keys, key);
                }
                assert(entries_map(after) =~= entries_map(before).insert(path@, container@));
            }
        }
    }
}

} // verus!
