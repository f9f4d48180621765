//! The per-request extension store: a type-indexed map for data passed
//! between independently developed middleware.
//!
//! Each kind of datum a middleware attaches is identified by one
//! identifier it picks for its type; the store holds at most one value
//! per identifier, the last write wins, and a missing identifier is a
//! normal, non-erroring lookup result. Middleware intending isolation
//! must pick distinct identifiers, exactly as distinct wrapper types
//! would be picked in a store keyed by compile-time types.

use vstd::prelude::*;
use std::collections::BTreeMap;

verus! {

broadcast use vstd::std_specs::btree::group_btree_axioms, vstd::laws_cmp::group_laws_cmp;

/// A per-request store of one owned datum per identifier, empty at every
/// construction.
pub struct ExtensionStore {
    slots: BTreeMap<u64, Vec<u8>>,
}

/// The views of the values of a map of owned data.
spec fn slot_views(m: Map<u64, Vec<u8>>) -> Map<u64, Seq<u8>> {
    Map::new(|k: u64| m.contains_key(k), |k: u64| m[k]@)
}

/// Inserting into a map and taking value views commutes with inserting
/// the value's view.
broadcast proof fn lemma_slot_views_insert(m: Map<u64, Vec<u8>>, k: u64, v: Vec<u8>)
    ensures
        #[trigger] slot_views(m.insert(k, v)) == slot_views(m).insert(k, v@),
{
    assert(slot_views(m.insert(k, v)) =~= slot_views(m).insert(k, v@));
}

/// Relies on BTreeMap::get_mut: a mutable reference to the value under
/// the key, or nothing when the key is absent. The map afterwards holds,
/// under that key, whatever the caller leaves behind the reference, and
/// is otherwise unchanged.
#[verifier::external_body]
fn slot_get_mut<'a>(m: &'a mut BTreeMap<u64, Vec<u8>>, key: u64) -> (r: Option<&'a mut Vec<u8>>)
    ensures
        match r {
            Some(v) => old(m)@.contains_key(key) && *v == old(m)@[key] && final(m)@ == old(
                m,
            )@.insert(key, *final(v)),
            None => !old(m)@.contains_key(key) && final(m)@ == old(m)@,
        },
{
    m.get_mut(&key)
}

impl View for ExtensionStore {
    type V = Map<u64, Seq<u8>>;

    /// The stored data by identifier.
    closed spec fn view(&self) -> Map<u64, Seq<u8>> {
        slot_views(self.slots@)
    }
}

impl ExtensionStore {
    /// An empty store.
    pub fn new() -> (s: ExtensionStore)
        ensures
            s@ == Map::<u64, Seq<u8>>::empty(),
    {
        let s = ExtensionStore { slots: BTreeMap::new() };
        proof {
            assert(s@ =~= Map::<u64, Seq<u8>>::empty());
        }
        s
    }

    /// Stores `value` under `key`, handing back what the key held before,
    /// if anything: a single slot per key, last write wins.
    pub fn insert(&mut self, key: u64, value: Vec<u8>) -> (prev: Option<Vec<u8>>)
        ensures
            final(self)@ == old(self)@.insert(key, value@),
            match prev {
                Some(p) => old(self)@.contains_key(key) && p@ == old(self)@[key],
                None => !old(self)@.contains_key(key),
            },
    {
        let ghost v = value@;
        let prev = self.slots.insert(key, value);
        proof {
            assert(self@ =~= old(self)@.insert(key, v));
        }
        prev
    }

    /// The value stored under `key`, if any. A missing key is a normal
    /// result, not an error.
    pub fn get(&self, key: u64) -> (r: Option<&Vec<u8>>)
        ensures
            match r {
                Some(v) => self@.contains_key(key) && v@ == self@[key],
                None => !self@.contains_key(key),
            },
    {
        self.slots.get(&key)
    }

    /// The value stored under `key`, for changing in place. The store
    /// afterwards holds, under `key`, whatever the caller leaves behind
    /// the reference, and is otherwise undisturbed.
    pub fn get_mut(&mut self, key: u64) -> (r: Option<&mut Vec<u8>>)
        ensures
            match r {
                Some(v) => old(self)@.contains_key(key) && v@ == old(self)@[key] && final(self)@
                    == old(self)@.insert(key, final(v)@),
                None => !old(self)@.contains_key(key) && final(self)@ == old(self)@,
            },
    {
        broadcast use lemma_slot_views_insert;

        slot_get_mut(&mut self.slots, key)
    }

    /// Removes and hands back the value stored under `key`, if any.
    pub fn remove(&mut self, key: u64) -> (r: Option<Vec<u8>>)
        ensures
            final(self)@ == old(self)@.remove(key),
            match r {
                Some(v) => old(self)@.contains_key(key) && v@ == old(self)@[key],
                None => !old(self)@.contains_key(key),
            },
    {
        let r = self.slots.remove(&key);
        proof {
            assert(self@ =~= old(self)@.remove(key));
        }
        r
    }

    /// Whether anything is stored under `key`.
    pub fn contains(&self, key: u64) -> (r: bool)
        ensures
            r == self@.contains_key(key),
    {
        self.slots.contains_key(&key)
    }
}

/// The store behaves as a single-slot-per-identifier map: a value read
/// back under the identifier it was stored under is the value last
/// stored; storing under a different identifier disturbs nothing; and a
/// fresh store holds nothing.
pub proof fn lemma_store_round_trip(m: Map<u64, Seq<u8>>, k1: u64, v1: Seq<u8>, k2: u64, v2: Seq<u8>)
    requires
        k1 != k2,
    ensures
        m.insert(k1, v1).contains_key(k1) && m.insert(k1, v1)[k1] == v1,
        m.insert(k1, v1).insert(k2, v2).contains_key(k1) && m.insert(k1, v1).insert(k2, v2)[k1]
            == v1,
        m.insert(k1, v1).insert(k1, v2)[k1] == v2,
        !Map::<u64, Seq<u8>>::empty().contains_key(k1),
{
}

} // verus!
