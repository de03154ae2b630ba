//! Maps that remember the order in which their keys were first seen.

use vstd::prelude::*;

use crate::ids;
use crate::text;

verus! {

/// `IndexSet` of the `indexmap` crate: a hash set that keeps insertion order.
#[verifier::external_type_specification]
#[verifier::external_body]
#[verifier::reject_recursive_types(T)]
#[verifier::reject_recursive_types(S)]
pub struct ExIndexSet<T, S>(indexmap::IndexSet<T, S>);

/// The texts that an index set holds, in insertion order.
pub uninterp spec fn key_order(keys: indexmap::IndexSet<String>) -> Seq<Seq<char>>;

/// `IndexSet::new` of `indexmap` makes a set that holds nothing.
#[verifier::external_body]
fn no_keys() -> (keys: indexmap::IndexSet<String>)
    ensures
        key_order(keys) == Seq::<Seq<char>>::empty(),
{
    indexmap::IndexSet::new()
}

/// `IndexSet::insert_full` of `indexmap` gives the position of an equal key that is already
/// there, with `false`, and changes nothing; a new key it puts behind all others and gives that
/// position, with `true`.
#[verifier::external_body]
fn place_key(keys: &mut indexmap::IndexSet<String>, key: String) -> (placed: (usize, bool))
    ensures
        placed.1 == !key_order(*old(keys)).contains(key@),
        placed.0 < key_order(*final(keys)).len(),
        key_order(*final(keys))[placed.0 as int] == key@,
        !placed.1 ==> key_order(*final(keys)) == key_order(*old(keys)),
        placed.1 ==> key_order(*final(keys)) == key_order(*old(keys)).push(key@),
        placed.1 ==> placed.0 == key_order(*old(keys)).len(),
{
    keys.insert_full(key)
}

/// `IndexSet::get_index_of` of `indexmap` gives the position of the key that equals `key`.
#[verifier::external_body]
fn find_key(keys: &indexmap::IndexSet<String>, key: &str) -> (at: Option<usize>)
    ensures
        match at {
            Some(i) => i < key_order(*keys).len() && key_order(*keys)[i as int] == key@,
            None => !key_order(*keys).contains(key@),
        },
{
    keys.get_index_of(key)
}

/// `IndexSet::len` of `indexmap` gives the number of keys.
#[verifier::external_body]
fn count_keys(keys: &indexmap::IndexSet<String>) -> (count: usize)
    ensures
        count == key_order(*keys).len(),
{
    keys.len()
}

/// `IndexSet::get_index` of `indexmap` gives the key at a position that is in range.
#[verifier::external_body]
fn key_at(keys: &indexmap::IndexSet<String>, at: usize) -> (key: Option<&String>)
    ensures
        match key {
            Some(found) => at < key_order(*keys).len() && found@ == key_order(*keys)[at as int],
            None => at >= key_order(*keys).len(),
        },
{
    keys.get_index(at)
}

/// `IndexSet::shift_remove_index` of `indexmap` takes out the key at a position that is in
/// range and moves the later keys up by one.
#[verifier::external_body]
fn drop_key(keys: &mut indexmap::IndexSet<String>, at: usize) -> (key: Option<String>)
    ensures
        match key {
            Some(found) => {
                &&& at < key_order(*old(keys)).len()
                &&& found@ == key_order(*old(keys))[at as int]
                &&& key_order(*final(keys)) == key_order(*old(keys)).remove(at as int)
            },
            None => at >= key_order(*old(keys)).len() && key_order(*final(keys)) == key_order(
                *old(keys),
            ),
        },
{
    keys.shift_remove_index(at)
}

/// A set of texts that keeps the order of their first insertion.
pub struct OrderedIds {
    keys: indexmap::IndexSet<String>,
}

impl View for OrderedIds {
    type V = Seq<Seq<char>>;

    closed spec fn view(&self) -> Seq<Seq<char>> {
        key_order(self.keys)
    }
}

impl OrderedIds {
    /// No text occurs twice.
    pub open spec fn wf(&self) -> bool {
        self@.no_duplicates()
    }

    /// The set that holds nothing.
    pub fn new() -> (set: OrderedIds)
        ensures
            set.wf(),
            set@ == Seq::<Seq<char>>::empty(),
    {
        OrderedIds { keys: no_keys() }
    }

    /// Whether the set holds `text`.
    pub fn contains(&self, text: &str) -> (found: bool)
        ensures
            found == self@.contains(text@),
    {
        match find_key(&self.keys, text) {
            Some(at) => {
                assert(self@[at as int] == text@);
                true
            },
            None => false,
        }
    }

    /// How many texts the set holds.
    pub fn len(&self) -> (count: usize)
        ensures
            count == self@.len(),
    {
        count_keys(&self.keys)
    }

    /// The text at a position.
    pub fn get(&self, at: usize) -> (text: Option<&String>)
        ensures
            match text {
                Some(found) => at < self@.len() && found@ == self@[at as int],
                None => at >= self@.len(),
            },
    {
        key_at(&self.keys, at)
    }

    /// Puts `text` behind the others, unless it is there.
    pub fn insert(&mut self, text: String)
        requires
            old(self).wf(),
        ensures
            final(self).wf(),
            final(self)@ == if old(self)@.contains(text@) {
                old(self)@
            } else {
                old(self)@.push(text@)
            },
    {
        let _ = place_key(&mut self.keys, text);
    }
}

impl OrderedIds {
    /// Puts each entry of a list behind the others, unless it is there.
    pub fn extend(&mut self, list: &Vec<String>)
        requires
            old(self).wf(),
        ensures
            final(self).wf(),
            final(self)@ == text::first_seen(old(self)@ + ids::texts(list@)),
    {
        let ghost known = self@;
        let ghost added = ids::texts(list@);
        let mut i: usize = 0;
        proof {
            text::lemma_first_seen_distinct(known);
            assert(known + added.take(0) =~= known);
        }
        while i < list.len()
            invariant
                i <= list.len(),
                self.wf(),
                added == ids::texts(list@),
                self@ == text::first_seen(known + added.take(i as int)),
            decreases list.len() - i,
        {
            proof {
                let before = known + added.take(i as int);
                assert(known + added.take(i as int + 1) =~= before.push(list@[i as int]@));
                assert(before.push(list@[i as int]@).drop_last() =~= before);
                text::law_first_seen(before);
            }
            self.insert(list[i].clone());
            i = i + 1;
        }
        assert(added.take(i as int) =~= added);
    }

    /// A copy of the set.
    pub fn copy(&self) -> (copy: OrderedIds)
        requires
            self.wf(),
        ensures
            copy.wf(),
            copy@ == self@,
    {
        let mut copy = OrderedIds::new();
        let mut i: usize = 0;
        while i < self.len()
            invariant
                i <= self@.len(),
                self.wf(),
                copy.wf(),
                copy@ == self@.take(i as int),
            decreases self@.len() - i,
        {
            if let Some(text) = self.get(i) {
                proof {
                    assert(self@.take(i as int + 1) =~= self@.take(i as int).push(text@));
                    if self@.take(i as int).contains(text@) {
                        let j = choose|j: int| 0 <= j < i && self@.take(i as int)[j] == text@;
                        assert(self@[j] == self@[i as int]);
                    }
                }
                copy.insert(text.clone());
            }
            i = i + 1;
        }
        assert(self@.take(i as int) =~= self@);
        copy
    }
}

/// A map from texts to values that keeps its keys in the order of their first insertion.
pub struct OrderedMap<V> {
    keys: indexmap::IndexSet<String>,
    values: Vec<V>,
}

impl<V> OrderedMap<V> {
    /// The keys, in order.
    pub closed spec fn keys(&self) -> Seq<Seq<char>> {
        key_order(self.keys)
    }

    /// The values, in the order of their keys.
    pub closed spec fn values(&self) -> Seq<V> {
        self.values@
    }

    /// Keys are distinct and each has one value.
    pub open spec fn wf(&self) -> bool {
        &&& self.keys().no_duplicates()
        &&& self.keys().len() == self.values().len()
    }

    /// The map without keys.
    pub fn new() -> (map: OrderedMap<V>)
        ensures
            map.wf(),
            map.keys() == Seq::<Seq<char>>::empty(),
            map.values() == Seq::<V>::empty(),
    {
        OrderedMap { keys: no_keys(), values: Vec::new() }
    }

    /// How many keys there are.
    pub fn len(&self) -> (count: usize)
        requires
            self.wf(),
        ensures
            count == self.keys().len(),
    {
        self.values.len()
    }

    /// Position of `key`.
    pub fn find(&self, key: &str) -> (at: Option<usize>)
        requires
            self.wf(),
        ensures
            match at {
                Some(i) => i < self.keys().len() && self.keys()[i as int] == key@,
                None => !self.keys().contains(key@),
            },
    {
        find_key(&self.keys, key)
    }

    /// The key at a position.
    pub fn key(&self, at: usize) -> (key: String)
        requires
            self.wf(),
            at < self.keys().len(),
        ensures
            key@ == self.keys()[at as int],
    {
        match key_at(&self.keys, at) {
            Some(found) => found.clone(),
            None => String::new(),
        }
    }

    /// The value at a position.
    pub fn value(&self, at: usize) -> (value: &V)
        requires
            self.wf(),
            at < self.keys().len(),
        ensures
            *value == self.values()[at as int],
    {
        &self.values[at]
    }

    /// Replaces the value at a position and gives the old one.
    pub fn replace(&mut self, at: usize, value: V) -> (replaced: V)
        requires
            old(self).wf(),
            at < old(self).keys().len(),
        ensures
            final(self).wf(),
            final(self).keys() == old(self).keys(),
            final(self).values() == old(self).values().update(at as int, value),
            replaced == old(self).values()[at as int],
    {
        let mut replaced = value;
        std::mem::swap(&mut self.values[at], &mut replaced);
        replaced
    }

    /// Gives `key` the value `value`: in place where the key is known, else behind all others.
    pub fn insert(&mut self, key: String, value: V)
        requires
            old(self).wf(),
        ensures
            final(self).wf(),
            old(self).keys().contains(key@) ==> {
                &&& final(self).keys() == old(self).keys()
                &&& final(self).values() == old(self).values().update(
                    old(self).keys().index_of(key@),
                    value,
                )
            },
            !old(self).keys().contains(key@) ==> {
                &&& final(self).keys() == old(self).keys().push(key@)
                &&& final(self).values() == old(self).values().push(value)
            },
    {
        match self.find(&key) {
            Some(at) => {
                assert(self.keys()[at as int] == key@);
                self.values.set(at, value);
            },
            None => {
                self.values.push(value);
                let _ = place_key(&mut self.keys, key);
            },
        }
    }

    /// Takes `key` and its value out; the others keep their order.
    pub fn remove(&mut self, key: &str) -> (removed: bool)
        requires
            old(self).wf(),
        ensures
            final(self).wf(),
            removed == old(self).keys().contains(key@),
            removed ==> {
                let at = old(self).keys().index_of(key@);
                &&& final(self).keys() == old(self).keys().remove(at)
                &&& final(self).values() == old(self).values().remove(at)
            },
            !removed ==> final(self).keys() == old(self).keys() && final(self).values() == old(
                self,
            ).values(),
    {
        match self.find(key) {
            Some(at) => {
                assert(self.keys()[at as int] == key@);
                self.values.remove(at);
                let _ = drop_key(&mut self.keys, at);
                true
            },
            None => false,
        }
    }
}

} // verus!
