//! Byte-keyed storage over the database: keys are byte strings, spelled
//! in hex to address the underlying key-value connection.

use vstd::prelude::*;

use crate::db::Db;
use crate::db::DbType;
use crate::utils::hex_encode;
use crate::utils::spec_hex_of;

verus! {

/// Which backing the storage uses.
#[derive(Clone, Copy, Debug, PartialEq, Eq, Structural)]
pub enum StorageType {
    /// Values live in memory only.
    Memory,
    /// Values live in memory and are flushed to disk.
    Disk,
}

/// Byte-keyed storage: a thin layer over [`Db`] that spells byte keys in
/// hex.
pub struct Storage {
    pub storage_type: StorageType,
    pub db: Db,
}

impl Storage {
    /// The stored values, keyed by the hex spelling of their byte keys.
    pub open spec fn as_map(self) -> Map<Seq<char>, Seq<u8>> {
        self.db.as_map()
    }

    /// An empty storage of the given kind.
    pub fn new(storage_type: StorageType) -> (s: Storage)
        ensures
            s.storage_type == storage_type,
            s.as_map() == Map::<Seq<char>, Seq<u8>>::empty(),
    {
        let db = match storage_type {
            StorageType::Memory => Db::new(DbType::Memory),
            StorageType::Disk => Db::new(DbType::Disk),
        };
        Storage { storage_type, db }
    }

    /// Stores `value` at the byte key `key`, overwriting any earlier
    /// value.
    pub fn put(&mut self, key: Vec<u8>, value: Vec<u8>)
        ensures
            final(self).as_map() == old(self).as_map().insert(spec_hex_of(key@), value@),
            final(self).storage_type == old(self).storage_type,
    {
        let k = hex_encode(key.as_slice());
        let outcome = self.db.put(k.as_str(), value);
        proof {
            assert(outcome is Ok);
        }
    }

    /// The value stored at the byte key `key`, if any.
    pub fn get(&self, key: Vec<u8>) -> (r: Option<Vec<u8>>)
        ensures
            match r {
                Some(v) => self.as_map().contains_key(spec_hex_of(key@)) && v@ == self.as_map().index(spec_hex_of(key@)),
                None => !self.as_map().contains_key(spec_hex_of(key@)),
            },
    {
        let k = hex_encode(key.as_slice());
        match self.db.get(k.as_str()) {
            Ok(v) => v,
            Err(_) => None,
        }
    }
}

} // verus!
