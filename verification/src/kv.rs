//! The narrow interface of the persistent key-value engine, and the plain
//! entry type its implementations hand out.

use vstd::prelude::*;

verus! {

/// A key-value store over byte keys and byte values.
pub trait KVStore: Sized {
    type Entry: KVEntry;

    type Value;

    type Error;

    /// The value filed under the key, if any.
    fn get(&self, key: &[u8]) -> Result<Option<Self::Value>, Self::Error>;

    /// Files the value under the key.
    fn insert(&self, key: &[u8], value: &[u8]) -> Result<(), Self::Error>;

    /// Removes the key.
    fn remove(&self, key: &[u8]) -> Result<(), Self::Error>;

    /// Removes every key in the range from `from` up to `to`.
    fn remove_range(&self, from: &[u8], to: &[u8]) -> Result<(), Self::Error>;

    /// The entries whose keys lie in the range, in key order.
    fn range(&self, from: &[u8], to: &[u8]) -> Result<Vec<Self::Entry>, Self::Error>;

    /// The entry that precedes the given key.
    fn next_back_entry(&self, key: &[u8]) -> Result<Option<Self::Entry>, Self::Error>;
}

/// A selection of entries of a key-value store.
pub trait KVRange: Sized {
    type Entry: KVEntry;

    type Error;

    /// The selected entries, in key order.
    fn kv_range(self) -> Result<Vec<Self::Entry>, Self::Error>;
}

/// One key-value entry.
pub trait KVEntry: Sized {
    /// The entry's key bytes.
    spec fn spec_key(&self) -> Seq<u8>;

    /// The entry's value bytes.
    spec fn spec_value(&self) -> Seq<u8>;

    fn key(&self) -> (r: &[u8])
        ensures
            r@ == self.spec_key(),
    ;

    fn value(&self) -> (r: &[u8])
        ensures
            r@ == self.spec_value(),
    ;
}

/// A store handle bound to one transaction scope.
pub struct KVStoreImpl;

/// An entry read back from the store: owned key and value bytes.
#[derive(Debug)]
pub struct RocksDBEntry {
    key: Vec<u8>,
    value: Vec<u8>,
}

impl RocksDBEntry {
    pub fn new(key: Vec<u8>, value: Vec<u8>) -> (r: Self)
        ensures
            r.spec_key() == key@,
            r.spec_value() == value@,
    {
        RocksDBEntry { key, value }
    }
}

impl KVEntry for RocksDBEntry {
    closed spec fn spec_key(&self) -> Seq<u8> {
        self.key@
    }

    closed spec fn spec_value(&self) -> Seq<u8> {
        self.value@
    }

    fn key(&self) -> (r: &[u8]) {
        self.key.as_slice()
    }

    fn value(&self) -> (r: &[u8]) {
        self.value.as_slice()
    }
}

} // verus!
