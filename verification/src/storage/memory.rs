//! An in-memory store: the reference implementation of the storage
//! interface, useful for provisioning, testing and single-process use.

use crate::storage::{DataStorage, Error, LowLevelStorage};
use vstd::hash_map::StringHashMap;
use vstd::prelude::*;

verus! {

/// A key-value store held entirely in memory. It never fails.
pub struct MemoryLowLevelStorage {
    map: StringHashMap<Vec<u8>>,
}

impl MemoryLowLevelStorage {
    /// Create an empty store.
    pub fn new() -> (r: MemoryLowLevelStorage)
        ensures
            r.contents() == Map::<Seq<char>, Seq<u8>>::empty(),
    {
        let r = MemoryLowLevelStorage { map: StringHashMap::new() };
        proof {
            assert(r.contents() =~= Map::<Seq<char>, Seq<u8>>::empty());
        }
        r
    }
}

impl DataStorage for MemoryLowLevelStorage {
    closed spec fn contents(&self) -> Map<Seq<char>, Seq<u8>> {
        Map::new(|k: Seq<char>| self.map@.contains_key(k), |k: Seq<char>| self.map@[k]@)
    }

    fn set(&mut self, key: &str, value: &[u8]) -> (r: Result<(), Error>)
        ensures
            r is Ok,
    {
        self.map.insert(key.to_owned(), crate::copy_bytes(value));
        proof {
            assert(self.contents() =~= old(self).contents().insert(key@, value@));
        }
        Ok(())
    }

    fn get(&self, key: &str) -> (r: Result<Option<Vec<u8>>, Error>)
        ensures
            r is Ok,
    {
        match self.map.get(key) {
            Some(v) => Ok(Some(crate::copy_bytes(v.as_slice()))),
            None => Ok(None),
        }
    }

    fn delete(&mut self, key: &str) -> (r: Result<(), Error>)
        ensures
            r is Ok,
    {
        self.map.remove(key);
        proof {
            assert(self.contents() =~= old(self).contents().remove(key@));
        }
        Ok(())
    }

    fn contains(&self, key: &str) -> (r: Result<bool, Error>)
        ensures
            r is Ok,
    {
        Ok(self.map.contains_key(key))
    }

    fn set_if_absent(&mut self, key: &str, value: &[u8]) -> (r: Result<bool, Error>)
        ensures
            r is Ok,
    {
        if self.map.contains_key(key) {
            Ok(false)
        } else {
            self.map.insert(key.to_owned(), crate::copy_bytes(value));
            proof {
                assert(self.contents() =~= old(self).contents().insert(key@, value@));
            }
            Ok(true)
        }
    }
}

impl LowLevelStorage for MemoryLowLevelStorage {

}

} // verus!
