//! A small map from [`TypeKey`]s to values.
use vstd::prelude::*;

use crate::ecs::system::TypeKey;

verus! {

/// Values by key, at most one per key.
pub struct KeyMap<T> {
    entries: Vec<(TypeKey, T)>,
}

/// What a list of entries maps `key` to, when it is listed once.
spec fn entries_map<T>(entries: Seq<(TypeKey, T)>) -> Map<TypeKey, T> {
    Map::new(
        |key: TypeKey| exists|i: int| 0 <= i < entries.len() && (#[trigger] entries[i]).0 == key,
        |key: TypeKey|
            entries[choose|i: int| 0 <= i < entries.len() && (#[trigger] entries[i]).0 == key].1,
    )
}

spec fn keys_differ<T>(entries: Seq<(TypeKey, T)>) -> bool {
    forall|i: int, j: int|
        0 <= i < j < entries.len() ==> (#[trigger] entries[i]).0 != (#[trigger] entries[j]).0
}

/// Two maps treat `key` alike.
spec fn agree<T>(a: Map<TypeKey, T>, b: Map<TypeKey, T>, key: TypeKey) -> bool {
    &&& a.dom().contains(key) == b.dom().contains(key)
    &&& a.dom().contains(key) ==> a[key] == b[key]
}

proof fn lemma_agree<T>(a: Map<TypeKey, T>, b: Map<TypeKey, T>)
    requires
        forall|key: TypeKey| #[trigger] agree(a, b, key),
    ensures
        a == b,
{
    assert forall|key: TypeKey| #[trigger] a.dom().contains(key) == b.dom().contains(key) by {
        assert(agree(a, b, key));
    }
    assert forall|key: TypeKey| a.dom().contains(key) implies #[trigger] a[key] == b[key] by {
        assert(agree(a, b, key));
    }
    assert(a =~= b);
}

/// The entry at `i` is the one that its key maps to.
proof fn lemma_entry<T>(entries: Seq<(TypeKey, T)>, i: int)
    requires
        keys_differ(entries),
        0 <= i < entries.len(),
    ensures
        entries_map(entries).dom().contains(entries[i].0),
        entries_map(entries)[entries[i].0] == entries[i].1,
{
    let key = entries[i].0;
    let j = choose|j: int| 0 <= j < entries.len() && (#[trigger] entries[j]).0 == key;
    assert(entries[i].0 == key);
    assert(i == j);
}

impl<T> View for KeyMap<T> {
    type V = Map<TypeKey, T>;

    closed spec fn view(&self) -> Map<TypeKey, T> {
        entries_map(self.entries@)
    }
}

impl<T> KeyMap<T> {
    /// No key is listed twice.
    pub closed spec fn wf(&self) -> bool {
        keys_differ(self.entries@)
    }

    /// A map without entries.
    pub fn new() -> (map: Self)
        ensures
            map.wf(),
            map@ == Map::<TypeKey, T>::empty(),
    {
        let map = KeyMap { entries: Vec::new() };
        assert(map@ =~= Map::<TypeKey, T>::empty());
        map
    }

    /// Where `key` is listed.
    fn find(&self, key: TypeKey) -> (found: Option<usize>)
        ensures
            match found {
                Some(i) => i < self.entries@.len() && self.entries@[i as int].0 == key,
                None => !self@.dom().contains(key),
            },
    {
        let mut i: usize = 0;
        while i < self.entries.len()
            invariant
                i <= self.entries@.len(),
                forall|j: int| 0 <= j < i ==> (#[trigger] self.entries@[j]).0 != key,
            decreases self.entries.len() - i,
        {
            if self.entries[i].0 == key {
                return Some(i);
            }
            i += 1;
        }
        None
    }

    /// Whether `key` has a value.
    pub fn contains(&self, key: TypeKey) -> (found: bool)
        ensures
            found == self@.dom().contains(key),
    {
        match self.find(key) {
            Some(i) => {
                assert(self.entries@[i as int].0 == key);
                true
            },
            None => false,
        }
    }

    /// The value of `key`.
    pub fn get(&self, key: TypeKey) -> (value: Option<&T>)
        requires
            self.wf(),
        ensures
            match value {
                Some(v) => self@.dom().contains(key) && *v == self@[key],
                None => !self@.dom().contains(key),
            },
    {
        match self.find(key) {
            Some(i) => {
                proof {
                    lemma_entry(self.entries@, i as int);
                }
                Some(&self.entries[i].1)
            },
            None => None,
        }
    }

    /// The value of `key`, to be changed in place.
    pub fn get_mut(&mut self, key: TypeKey) -> (value: Option<&mut T>)
        requires
            old(self).wf(),
        ensures
            final(self).wf(),
            match value {
                Some(v) => {
                    &&& old(self)@.dom().contains(key)
                    &&& *v == old(self)@[key]
                    &&& final(self)@ == old(self)@.insert(key, *final(v))
                },
                None => !old(self)@.dom().contains(key) && *final(self) == *old(self),
            },
    {
        match self.find(key) {
            Some(i) => {
                proof {
                    lemma_entry(self.entries@, i as int);
                }
                let ghost before = self.entries@;
                let entry = &mut self.entries[i];
                let value = &mut entry.1;
                proof {
                    lemma_replace(before, i as int, *final(value));
                }
                Some(value)
            },
            None => None,
        }
    }

    /// Sets the value of `key`, replacing the one that was there.
    pub fn insert(&mut self, key: TypeKey, value: T)
        requires
            old(self).wf(),
        ensures
            final(self).wf(),
            final(self)@ == old(self)@.insert(key, value),
    {
        match self.find(key) {
            Some(i) => {
                proof {
                    lemma_replace(self.entries@, i as int, value);
                }
                self.entries.set(i, (key, value));
            },
            None => {
                let ghost before = self.entries@;
                self.entries.push((key, value));
                proof {
                    assert forall|j: int| 0 <= j < before.len() implies (#[trigger] before[j]).0
                        != key by {
                        assert(entries_map(before).dom().contains(before[j].0));
                    }
                    assert(keys_differ(self.entries@));
                    assert(self@ =~= old(self)@.insert(key, value)) by {
                        lemma_entry(self.entries@, before.len() as int);
                        assert forall|k: TypeKey| #[trigger]
                            agree(self@, old(self)@.insert(key, value), k) by {
                            if entries_map(before).dom().contains(k) {
                                let j = choose|j: int|
                                    0 <= j < before.len() && (#[trigger] before[j]).0 == k;
                                lemma_entry(before, j);
                                assert(self.entries@[j] == before[j]);
                                lemma_entry(self.entries@, j);
                            }
                            if self@.dom().contains(k) {
                                let j = choose|j: int|
                                    0 <= j < self.entries@.len() && (#[trigger] self.entries@[j]).0
                                        == k;
                                if k != key {
                                    assert(before[j].0 == k);
                                }
                            }
                        }
                        lemma_agree(self@, old(self)@.insert(key, value));
                    }
                }
            },
        }
    }

    /// Removes the value of `key` and returns it.
    pub fn remove(&mut self, key: TypeKey) -> (value: Option<T>)
        requires
            old(self).wf(),
        ensures
            final(self).wf(),
            final(self)@ == old(self)@.remove(key),
            match value {
                Some(v) => old(self)@.dom().contains(key) && v == old(self)@[key],
                None => !old(self)@.dom().contains(key),
            },
    {
        match self.find(key) {
            Some(i) => {
                let ghost before = self.entries@;
                proof {
                    lemma_entry(before, i as int);
                }
                let (_, value) = self.entries.remove(i);
                proof {
                    assert forall|j: int| 0 <= j < self.entries@.len() implies #[trigger] self.entries@[j]
                        == before[if j < i {
                        j
                    } else {
                        j + 1
                    }] by {}
                    assert(keys_differ(self.entries@));
                    assert(self@ =~= old(self)@.remove(key)) by {
                        assert forall|k: TypeKey| #[trigger]
                            agree(self@, old(self)@.remove(key), k) by {
                            if k != key && entries_map(before).dom().contains(k) {
                                let j = choose|j: int|
                                    0 <= j < before.len() && (#[trigger] before[j]).0 == k;
                                let now = if j < i {
                                    j
                                } else {
                                    j - 1
                                };
                                assert(self.entries@[now] == before[j]);
                                lemma_entry(before, j);
                                lemma_entry(self.entries@, now);
                            }
                            if self@.dom().contains(k) {
                                let j = choose|j: int|
                                    0 <= j < self.entries@.len() && (#[trigger] self.entries@[j]).0
                                        == k;
                                let then = if j < i {
                                    j
                                } else {
                                    j + 1
                                };
                                assert(before[then].0 == k);
                                lemma_entry(before, then);
                                assert(before[i as int].0 == key);
                            }
                        }
                        lemma_agree(self@, old(self)@.remove(key));
                    }
                }
                Some(value)
            },
            None => {
                assert(self@ =~= old(self)@.remove(key));
                None
            },
        }
    }
}

/// Putting another value into the entry at `i` changes what its key maps to
/// and nothing else.
proof fn lemma_replace<T>(before: Seq<(TypeKey, T)>, i: int, value: T)
    requires
        keys_differ(before),
        0 <= i < before.len(),
    ensures
        keys_differ(before.update(i, (before[i].0, value))),
        entries_map(before.update(i, (before[i].0, value))) == entries_map(before).insert(
            before[i].0,
            value,
        ),
{
    let key = before[i].0;
    let after = before.update(i, (key, value));
    assert forall|j: int| 0 <= j < before.len() implies (#[trigger] after[j]).0 == before[j].0 by {}
    assert(keys_differ(after));
    lemma_entry(after, i);
    assert forall|k: TypeKey| #[trigger]
        agree(entries_map(after), entries_map(before).insert(key, value), k) by {
        if k != key && entries_map(before).dom().contains(k) {
            let j = choose|j: int| 0 <= j < before.len() && (#[trigger] before[j]).0 == k;
            lemma_entry(before, j);
            assert(after[j] == before[j]);
            lemma_entry(after, j);
        }
        if entries_map(after).dom().contains(k) {
            let j = choose|j: int| 0 <= j < after.len() && (#[trigger] after[j]).0 == k;
            assert(before[j].0 == k);
        }
    }
    lemma_agree(entries_map(after), entries_map(before).insert(key, value));
}

// ---------------------------------------------------------------------------
// Laws
// ---------------------------------------------------------------------------

/// What is put under a key is found there, by itself, until it is taken; what
/// is under other keys stays.
pub proof fn law_a_value_is_found_under_its_key<T>(
    map: &mut KeyMap<T>,
    key: TypeKey,
    value: T,
    found: Option<&T>,
    taking: &mut KeyMap<T>,
    taken: Option<T>,
    left: bool,
    other: TypeKey,
    elsewhere: Option<&T>,
    earlier: Option<&T>,
)
    requires
        other != key,
        call_ensures(KeyMap::<T>::get, (&*old(map), other), earlier),
        call_ensures(KeyMap::<T>::insert, (map, key, value), ()),
        call_ensures(KeyMap::<T>::get, (&*final(map), key), found),
        *old(taking) == *final(map),
        call_ensures(KeyMap::<T>::remove, (taking, key), taken),
        call_ensures(KeyMap::<T>::contains, (&*final(taking), key), left),
        call_ensures(KeyMap::<T>::get, (&*final(taking), other), elsewhere),
    ensures
        found is Some,
        *found->Some_0 == value,
        taken == Some(value),
        !left,
        elsewhere is Some <==> earlier is Some,
        earlier is Some ==> *elsewhere->Some_0 == *earlier->Some_0,
{
}

/// In a new map nothing is found, and what is not there cannot be taken.
pub proof fn law_a_new_map_is_empty<T>(
    map: KeyMap<T>,
    key: TypeKey,
    found: bool,
    value: Option<&T>,
)
    requires
        call_ensures(KeyMap::<T>::new, (), map),
        call_ensures(KeyMap::<T>::contains, (&map, key), found),
        call_ensures(KeyMap::<T>::get, (&map, key), value),
    ensures
        !found,
        value is None,
{
}

/// A value that is changed in place is the value under its key from then on.
pub proof fn law_a_value_is_changed_in_place<T>(
    map: &mut KeyMap<T>,
    key: TypeKey,
    value: Option<&mut T>,
    other: TypeKey,
)
    requires
        other != key,
        call_ensures(KeyMap::<T>::get_mut, (map, key), value),
    ensures
        value is Some <==> old(map)@.dom().contains(key),
        value is Some ==> {
            &&& *old(value->Some_0) == old(map)@[key]
            &&& final(map)@.dom().contains(key)
            &&& final(map)@[key] == *final(value->Some_0)
        },
        final(map)@.dom().contains(other) == old(map)@.dom().contains(other),
        old(map)@.dom().contains(other) ==> final(map)@[other] == old(map)@[other],
{
}

} // verus!
