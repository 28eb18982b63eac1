//! Byte-oriented key-value storage: the abstract store interface, an
//! in-memory reference backend, a replicating compound store, and a wrapper
//! that encrypts all values at rest.

pub mod compound;
pub mod crypto;
pub mod memory;

use vstd::prelude::*;

verus! {

/// Failure modes of the storage layer.
#[derive(Debug)]
pub enum Error {
    /// A value was present but could not be decrypted: the bytes at rest are
    /// corrupted, or the KEK that sealed them is gone. This is distinct from
    /// an absent value.
    Cipher(crate::ciphers::Error),
    /// An availability or I/O failure of the backing store.
    Backend(String),
}

/// An abstract key-value store with strongly consistent compare-and-swap.
///
/// The store's visible state is the map `contents()`. Every method says what
/// holds of the state and the result when it returns `Ok`; a store may fail
/// any operation with an availability or I/O error of its own (always the
/// `Backend` variant), which callers propagate. Implementations outside this
/// crate are not verified: they are trusted to behave as some contents-map
/// satisfying these contracts.
pub trait DataStorage: Sized {
    /// The logical contents: a map from key paths to byte values. The
    /// default is the empty map, so that unverified backends outside this
    /// crate can implement the trait without stating a model; a verified
    /// implementation overrides it.
    open spec fn contents(&self) -> Map<Seq<char>, Seq<u8>> {
        Map::empty()
    }

    /// Write a value, overwriting any previous one.
    fn set(&mut self, key: &str, value: &[u8]) -> (r: Result<(), Error>)
        ensures
            r is Ok ==> final(self).contents() == old(self).contents().insert(key@, value@),
            r matches Err(e) ==> e is Backend,
    ;

    /// Read a value; `None` means the key is absent, never that it is
    /// unreadable.
    fn get(&self, key: &str) -> (r: Result<Option<Vec<u8>>, Error>)
        ensures
            r matches Ok(v) ==> match v {
                Some(b) => self.contents().contains_key(key@) && b@ == self.contents()[key@],
                None => !self.contents().contains_key(key@),
            },
            r matches Err(e) ==> e is Backend,
    ;

    /// Remove a value, if present.
    fn delete(&mut self, key: &str) -> (r: Result<(), Error>)
        ensures
            r is Ok ==> final(self).contents() == old(self).contents().remove(key@),
            r matches Err(e) ==> e is Backend,
    ;

    /// Whether the key holds a value.
    fn contains(&self, key: &str) -> (r: Result<bool, Error>)
        ensures
            r matches Ok(b) ==> b == self.contents().contains_key(key@),
            r matches Err(e) ==> e is Backend,
    ;

    /// Atomic compare-and-swap: write only if no prior value exists, and
    /// report whether the write happened.
    fn set_if_absent(&mut self, key: &str, value: &[u8]) -> (r: Result<bool, Error>)
        ensures
            r matches Ok(b) ==> b == !old(self).contents().contains_key(key@),
            (r matches Ok(b) && b) ==> final(self).contents() == old(self).contents().insert(
                key@,
                value@,
            ),
            (r matches Ok(b) && !b) ==> final(self).contents() == old(self).contents(),
            r matches Err(e) ==> e is Backend,
    ;
}

/// A store that keeps values exactly as given, with no encryption of its
/// own. The encrypting wrapper sits on top of one of these.
pub trait LowLevelStorage: DataStorage {

}

} // verus!
