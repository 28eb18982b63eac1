//! A compound store: several backends behind one storage interface.
//!
//! Writes go to every member; reads return the first value found, scanning
//! members in order. The visible contents are therefore the first-wins union
//! of the members' contents.

use crate::storage::{DataStorage, Error, LowLevelStorage};
use vstd::prelude::*;
use vstd::string::StringExecFns;

verus! {

/// The first-wins union of the members' contents: a key's value comes from
/// the first member that holds it.
pub open spec fn combined<S: DataStorage>(ss: Seq<S>) -> Map<Seq<char>, Seq<u8>>
    decreases ss.len(),
{
    if ss.len() == 0 {
        Map::empty()
    } else {
        combined(ss.drop_first()).union_prefer_right(ss.first().contents())
    }
}

/// A key is in the union exactly when some member holds it.
pub proof fn lemma_combined_contains<S: DataStorage>(ss: Seq<S>, k: Seq<char>)
    ensures
        combined(ss).contains_key(k) <==> exists|i: int|
            0 <= i < ss.len() && (#[trigger] ss[i]).contents().contains_key(k),
    decreases ss.len(),
{
    if ss.len() == 0 {
    } else {
        let rest = ss.drop_first();
        lemma_combined_contains(rest, k);
        if combined(ss).contains_key(k) {
            if ss.first().contents().contains_key(k) {
                assert(ss[0].contents().contains_key(k));
            } else {
                let i = choose|i: int|
                    0 <= i < rest.len() && (#[trigger] rest[i]).contents().contains_key(k);
                assert(ss[i + 1].contents().contains_key(k));
            }
        }
        if exists|i: int| 0 <= i < ss.len() && (#[trigger] ss[i]).contents().contains_key(k) {
            let i = choose|i: int|
                0 <= i < ss.len() && (#[trigger] ss[i]).contents().contains_key(k);
            if i == 0 {
                assert(ss.first().contents().contains_key(k));
            } else {
                assert(rest[i - 1].contents().contains_key(k));
                assert(combined(rest).contains_key(k));
            }
        }
    }
}

/// The union's value for a key is the first holding member's value.
pub proof fn lemma_combined_value<S: DataStorage>(ss: Seq<S>, k: Seq<char>, i: int)
    requires
        0 <= i < ss.len(),
        ss[i].contents().contains_key(k),
        forall|j: int| 0 <= j < i ==> !(#[trigger] ss[j]).contents().contains_key(k),
    ensures
        combined(ss).contains_key(k),
        combined(ss)[k] == ss[i].contents()[k],
    decreases ss.len(),
{
    let rest = ss.drop_first();
    if i == 0 {
        assert(combined(ss).contains_key(k));
    } else {
        assert(!ss[0].contents().contains_key(k));
        assert(forall|j: int| 0 <= j < i - 1 ==> !(#[trigger] rest[j]).contents().contains_key(k));
        assert(rest[i - 1] == ss[i]);
        lemma_combined_value(rest, k, i - 1);
    }
}

/// Inserting the same pair into every member inserts it into the union.
pub proof fn lemma_combined_insert<S: DataStorage>(
    before: Seq<S>,
    after: Seq<S>,
    k: Seq<char>,
    v: Seq<u8>,
)
    requires
        1 <= before.len() == after.len(),
        forall|i: int|
            0 <= i < before.len() ==> (#[trigger] after[i]).contents() == before[i].contents().insert(
                k,
                v,
            ),
    ensures
        combined(after) == combined(before).insert(k, v),
    decreases before.len(),
{
    if before.len() == 1 {
        assert(after.first().contents() == before.first().contents().insert(k, v));
        assert(combined(after.drop_first()) =~= Map::<Seq<char>, Seq<u8>>::empty());
        assert(combined(before.drop_first()) =~= Map::<Seq<char>, Seq<u8>>::empty());
        assert(combined(after) =~= combined(before).insert(k, v));
    } else {
        assert(forall|i: int|
            0 <= i < before.len() - 1 ==> (#[trigger] after.drop_first()[i]).contents()
                == before.drop_first()[i].contents().insert(k, v));
        lemma_combined_insert(before.drop_first(), after.drop_first(), k, v);
        assert(after.first().contents() == before.first().contents().insert(k, v));
        assert(combined(after) =~= combined(before).insert(k, v));
    }
}

/// Removing the same key from every member removes it from the union.
pub proof fn lemma_combined_remove<S: DataStorage>(before: Seq<S>, after: Seq<S>, k: Seq<char>)
    requires
        1 <= before.len() == after.len(),
        forall|i: int|
            0 <= i < before.len() ==> (#[trigger] after[i]).contents() == before[i].contents().remove(
                k,
            ),
    ensures
        combined(after) == combined(before).remove(k),
    decreases before.len(),
{
    if before.len() == 1 {
        assert(after.first().contents() == before.first().contents().remove(k));
        assert(combined(after.drop_first()) =~= Map::<Seq<char>, Seq<u8>>::empty());
        assert(combined(before.drop_first()) =~= Map::<Seq<char>, Seq<u8>>::empty());
        assert(combined(after) =~= combined(before).remove(k));
    } else {
        assert(forall|i: int|
            0 <= i < before.len() - 1 ==> (#[trigger] after.drop_first()[i]).contents()
                == before.drop_first()[i].contents().remove(k));
        lemma_combined_remove(before.drop_first(), after.drop_first(), k);
        assert(after.first().contents() == before.first().contents().remove(k));
        assert(combined(after) =~= combined(before).remove(k));
    }
}

/// Several stores behind one interface, written together and read in order.
pub struct CompoundLowLevelStorage<S> {
    storages: Vec<S>,
}

/// Collects the member stores of a compound store.
pub struct CompoundLowLevelStorageBuilder<S> {
    storages: Vec<S>,
}

impl<S: LowLevelStorage> CompoundLowLevelStorageBuilder<S> {
    /// The members collected so far.
    pub closed spec fn spec_storages(&self) -> Seq<S> {
        self.storages@
    }

    /// Start with no members.
    pub fn new() -> (r: CompoundLowLevelStorageBuilder<S>)
        ensures
            r.spec_storages() == Seq::<S>::empty(),
    {
        CompoundLowLevelStorageBuilder { storages: Vec::new() }
    }

    /// Append one member store.
    pub fn add_storage(self, storage: S) -> (r: CompoundLowLevelStorageBuilder<S>)
        ensures
            r.spec_storages() == self.spec_storages().push(storage),
    {
        let mut storages = self.storages;
        storages.push(storage);
        CompoundLowLevelStorageBuilder { storages }
    }

    /// Finish, yielding the compound store over the collected members.
    pub fn build(self) -> (r: CompoundLowLevelStorage<S>)
        ensures
            r.spec_storages() == self.spec_storages(),
    {
        CompoundLowLevelStorage::new(self.storages)
    }
}

impl<S: LowLevelStorage> CompoundLowLevelStorage<S> {
    /// The member stores, in read order.
    pub closed spec fn spec_storages(&self) -> Seq<S> {
        self.storages@
    }

    /// Wrap the given member stores.
    pub fn new(storages: Vec<S>) -> (r: CompoundLowLevelStorage<S>)
        ensures
            r.spec_storages() == storages@,
    {
        CompoundLowLevelStorage { storages }
    }

    /// Start building a compound store.
    pub fn builder() -> (r: CompoundLowLevelStorageBuilder<S>)
        ensures
            r.spec_storages() == Seq::<S>::empty(),
    {
        CompoundLowLevelStorageBuilder::new()
    }
}

impl<S: LowLevelStorage> DataStorage for CompoundLowLevelStorage<S> {
    closed spec fn contents(&self) -> Map<Seq<char>, Seq<u8>> {
        combined(self.spec_storages())
    }

    fn set(&mut self, key: &str, value: &[u8]) -> (r: Result<(), Error>) {
        let n: usize = self.storages.len();
        if n == 0 {
            return Err(Error::Backend(String::from_str("compound store has no members")));
        }
        let mut i: usize = 0;
        while i < n
            invariant
                n == self.storages@.len(),
                0 <= i <= n,
                self.storages@.len() == old(self).storages@.len(),
                forall|j: int|
                    0 <= j < i ==> (#[trigger] self.storages@[j]).contents() == old(
                        self,
                    ).storages@[j].contents().insert(key@, value@),
                forall|j: int| i <= j < n ==> self.storages@[j] == old(self).storages@[j],
            decreases n - i,
        {
            let s = vstd::std_specs::vec::vec_index_mut(&mut self.storages, i);
            match s.set(key, value) {
                Ok(u) => u,
                Err(e) => {
                    return Err(e);
                },
            }
            i += 1;
        }
        proof {
            lemma_combined_insert(old(self).storages@, self.storages@, key@, value@);
        }
        Ok(())
    }

    fn get(&self, key: &str) -> (r: Result<Option<Vec<u8>>, Error>) {
        let n: usize = self.storages.len();
        let mut i: usize = 0;
        while i < n
            invariant
                n == self.storages@.len(),
                0 <= i <= n,
                forall|j: int|
                    0 <= j < i ==> !(#[trigger] self.storages@[j]).contents().contains_key(key@),
            decreases n - i,
        {
            match self.storages[i].get(key) {
                Ok(Some(v)) => {
                    proof {
                        lemma_combined_value(self.storages@, key@, i as int);
                    }
                    return Ok(Some(v));
                },
                Ok(None) => {
                },
                Err(e) => {
                    return Err(e);
                },
            }
            i += 1;
        }
        proof {
            lemma_combined_contains(self.storages@, key@);
        }
        Ok(None)
    }

    fn delete(&mut self, key: &str) -> (r: Result<(), Error>) {
        let n: usize = self.storages.len();
        if n == 0 {
            return Err(Error::Backend(String::from_str("compound store has no members")));
        }
        let mut i: usize = 0;
        while i < n
            invariant
                n == self.storages@.len(),
                0 <= i <= n,
                self.storages@.len() == old(self).storages@.len(),
                forall|j: int|
                    0 <= j < i ==> (#[trigger] self.storages@[j]).contents() == old(
                        self,
                    ).storages@[j].contents().remove(key@),
                forall|j: int| i <= j < n ==> self.storages@[j] == old(self).storages@[j],
            decreases n - i,
        {
            let s = vstd::std_specs::vec::vec_index_mut(&mut self.storages, i);
            match s.delete(key) {
                Ok(u) => u,
                Err(e) => {
                    return Err(e);
                },
            }
            i += 1;
        }
        proof {
            lemma_combined_remove(old(self).storages@, self.storages@, key@);
        }
        Ok(())
    }

    fn contains(&self, key: &str) -> (r: Result<bool, Error>) {
        let n: usize = self.storages.len();
        let mut i: usize = 0;
        while i < n
            invariant
                n == self.storages@.len(),
                0 <= i <= n,
                forall|j: int|
                    0 <= j < i ==> !(#[trigger] self.storages@[j]).contents().contains_key(key@),
            decreases n - i,
        {
            match self.storages[i].contains(key) {
                Ok(true) => {
                    proof {
                        lemma_combined_contains(self.storages@, key@);
                    }
                    return Ok(true);
                },
                Ok(false) => {
                },
                Err(e) => {
                    return Err(e);
                },
            }
            i += 1;
        }
        proof {
            lemma_combined_contains(self.storages@, key@);
        }
        Ok(false)
    }

    /// A check of all members followed by a replicated write. This is
    /// atomic only with respect to callers of this compound store itself;
    /// concurrent first-use arbitration across processes must rest on a
    /// single member's own compare-and-swap.
    fn set_if_absent(&mut self, key: &str, value: &[u8]) -> (r: Result<bool, Error>) {
        match self.contains(key) {
            Ok(true) => Ok(false),
            Ok(false) => {
                match self.set(key, value) {
                    Ok(_) => Ok(true),
                    Err(e) => Err(e),
                }
            },
            Err(e) => Err(e),
        }
    }
}

impl<S: LowLevelStorage> LowLevelStorage for CompoundLowLevelStorage<S> {

}

/// The compound store's visible contents are the first-wins union of its
/// members' contents, so the lemmas on `combined` apply to it.
pub proof fn lemma_compound_contents<S: LowLevelStorage>(s: &CompoundLowLevelStorage<S>)
    ensures
        s.contents() == combined(s.spec_storages()),
{
}

} // verus!
