//! The durable key-value store: the capability contract the core needs from
//! it, and the kinds of store a deployment can pick.
//!
//! The contract models the store as the map it holds, and keeps a history of
//! the writes made on it, so that the flows' contracts can say which writes a
//! flow performs and what the store holds afterwards.

use vstd::prelude::*;

use crate::errors::StorageError;

verus! {

/// One write to the key-value store: key, value, and whether it was persisted.
pub struct SetEvent {
    pub key: Seq<char>,
    pub value: Seq<char>,
    pub ok: bool,
}

/// The durable key-value store, modelled as the map it holds.
pub trait KeyValueStore {
    /// The keys and values currently persisted.  An implementation outside
    /// the verifier leaves the default model; verified callers rely only on
    /// the contracts below.
    open spec fn store_map(&self) -> Map<Seq<char>, Seq<char>> {
        Map::empty()
    }

    /// All writes made so far, oldest first.
    open spec fn set_events(&self) -> Seq<SetEvent> {
        Seq::empty()
    }

    /// Persists `value` under `key`, overwriting any previous value.
    fn set(&mut self, key: String, value: String) -> (r: Result<(), StorageError>)
        ensures
            final(self).set_events() == old(self).set_events().push(SetEvent { key: key@, value: value@, ok: r is Ok }),
            r is Ok ==> final(self).store_map() == old(self).store_map().insert(key@, value@),
            r is Err ==> final(self).store_map() == old(self).store_map(),
    ;

    /// The value persisted under `key`, or nothing: absence is a meaningful
    /// state, and a failed read degrades to absence.
    fn get(&self, key: &str) -> (r: Option<String>)
        ensures
            match r {
                Some(v) => self.store_map().contains_key(key@) && v@ == self.store_map()[key@],
                None => !self.store_map().contains_key(key@),
            },
    ;
}

/// The kinds of key-value store a deployment can pick.
#[derive(Clone, Debug, PartialEq, Eq, Structural)]
pub enum StoreType {
    Sled,
}

impl core::str::FromStr for StoreType {
    type Err = ();

    fn from_str(input: &str) -> Result<StoreType, ()> {
        if input == "Sled" {
            Ok(StoreType::Sled)
        } else {
            Err(())
        }
    }
}

/// Owns the store a deployment selected and hands out access to it.
pub struct StorageManager<S: KeyValueStore> {
    store: S,
}

impl<S: KeyValueStore> StorageManager<S> {
    /// The store this manager owns, as the contracts see it.
    pub closed spec fn store_model(&self) -> S {
        self.store
    }

    /// Wraps the given store.
    pub fn new(store: S) -> (r: Self)
        ensures
            r.store_model() == store,
    {
        StorageManager { store }
    }

    /// The store this manager owns.
    pub fn get_store(&mut self) -> (r: &mut S)
        ensures
            *r == old(self).store_model(),
            final(self).store_model() == *final(r),
    {
        &mut self.store
    }
}

} // verus!
