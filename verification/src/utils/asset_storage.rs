//! Storage of loaded assets under string ids.
use crate::utils::collections::share;
use std::sync::Arc;
use vstd::prelude::*;

verus! {

/// Something that can be loaded from a file.
pub trait Asset: Sized {
    fn load_from_file(path: &str) -> Self;
}

/// The asset that `entries` store under `id`: that of the last entry for `id`.
pub open spec fn stored_asset<A>(entries: Seq<(String, Arc<A>)>, id: Seq<char>) -> Option<Arc<A>>
    decreases entries.len(),
{
    if entries.len() == 0 {
        None
    } else if entries.last().0@ == id {
        Some(entries.last().1)
    } else {
        stored_asset(entries.drop_last(), id)
    }
}

/// Loaded assets, each under an id; loading under an id replaces what was
/// stored under it.
pub struct AssetStorage<A> {
    storage: Vec<(String, Arc<A>)>,
}

impl<A> AssetStorage<A> {
    /// The asset stored under `id`, if any.
    pub closed spec fn spec_get(&self, id: Seq<char>) -> Option<Arc<A>> {
        stored_asset(self.storage@, id)
    }

    pub fn new() -> (storage: AssetStorage<A>)
        ensures
            forall|id: Seq<char>| storage.spec_get(id) is None,
    {
        AssetStorage { storage: Vec::new() }
    }

    /// Stores `asset` under `id`.
    pub fn insert(&mut self, id: &str, asset: A)
        ensures
            final(self).spec_get(id@) == Some(Arc::new(asset)),
            forall|other: Seq<char>|
                other != id@ ==> final(self).spec_get(other) == old(self).spec_get(other),
    {
        self.storage.push((id.to_owned(), Arc::new(asset)));
        assert(self.storage@.drop_last() =~= old(self).storage@);
    }

    /// Loads the asset of the file at `path` and stores it under `id`.
    pub fn load_asset_from_file(&mut self, path: &str, id: &str) where A: Asset
        ensures
            exists|asset: A|
                call_ensures(A::load_from_file, (path,), asset) && final(self).spec_get(id@)
                    == Some(Arc::new(asset)),
            forall|other: Seq<char>|
                other != id@ ==> final(self).spec_get(other) == old(self).spec_get(other),
    {
        let asset = A::load_from_file(path);
        self.insert(id, asset);
    }

    /// Drops what is stored under `id`.
    pub fn release_asset(&mut self, id: &str)
        ensures
            final(self).spec_get(id@) is None,
            forall|other: Seq<char>|
                other != id@ ==> final(self).spec_get(other) == old(self).spec_get(other),
    {
        let key = id.to_owned();
        let mut kept: Vec<(String, Arc<A>)> = Vec::new();
        let n = self.storage.len();
        for i in 0..n
            invariant
                n == self.storage@.len(),
                self.storage@ == old(self).storage@,
                key@ == id@,
                stored_asset(kept@, id@) is None,
                forall|other: Seq<char>|
                    other != id@ ==> stored_asset(kept@, other) == stored_asset(
                        self.storage@.take(i as int),
                        other,
                    ),
        {
            let ghost taken = self.storage@.take(i + 1);
            assert(taken.drop_last() =~= self.storage@.take(i as int));
            assert(taken.last() == self.storage@[i as int]);
            let ghost before = kept@;
            let same_id = self.storage[i].0 == key;
            if !same_id {
                let entry = (self.storage[i].0.clone(), share(&self.storage[i].1));
                kept.push(entry);
                assert(kept@.drop_last() =~= before);
                assert(kept@.last().0@ == taken.last().0@);
                assert(kept@.last().1 == taken.last().1);
            }
            assert forall|other: Seq<char>| other != id@ implies stored_asset(kept@, other)
                == stored_asset(taken, other) by {
                assert(stored_asset(before, other) == stored_asset(
                    self.storage@.take(i as int),
                    other,
                ));
                if same_id {
                    assert(taken.last().0@ == id@);
                    assert(kept@ == before);
                } else {
                    assert(kept@.drop_last() == before);
                }
            }
        }
        assert(self.storage@.take(n as int) =~= self.storage@);
        self.storage = kept;
    }

    /// The asset stored under `id`, if any.
    pub fn get(&self, id: &str) -> (asset: Option<Arc<A>>)
        ensures
            asset == self.spec_get(id@),
    {
        let key = id.to_owned();
        let mut i = self.storage.len();
        assert(self.storage@.take(i as int) =~= self.storage@);
        while i > 0
            invariant
                i <= self.storage@.len(),
                key@ == id@,
                stored_asset(self.storage@, id@) == stored_asset(
                    self.storage@.take(i as int),
                    id@,
                ),
            decreases i,
        {
            assert(self.storage@.take(i as int).drop_last() =~= self.storage@.take(i - 1));
            if self.storage[i - 1].0 == key {
                return Some(share(&self.storage[i - 1].1));
            }
            i -= 1;
        }
        None
    }

    /// The asset stored under `id`, which must be there.
    pub fn get_asset(&self, id: &str) -> (asset: Arc<A>)
        requires
            self.spec_get(id@) is Some,
        ensures
            self.spec_get(id@) == Some(asset),
    {
        self.get(id).unwrap()
    }
}

/// Releasing an id undoes loading under it: where nothing was stored under
/// the id before the load, the storage after the release holds what it held
/// before the load, under every id.
pub proof fn lemma_release_undoes_load<A>(
    before: AssetStorage<A>,
    loaded: AssetStorage<A>,
    released: AssetStorage<A>,
    id: Seq<char>,
)
    requires
        before.spec_get(id) is None,
        loaded.spec_get(id) is Some,
        forall|other: Seq<char>| other != id ==> loaded.spec_get(other) == before.spec_get(other),
        released.spec_get(id) is None,
        forall|other: Seq<char>|
            other != id ==> released.spec_get(other) == loaded.spec_get(other),
    ensures
        forall|other: Seq<char>| released.spec_get(other) == before.spec_get(other),
{
    assert forall|other: Seq<char>| released.spec_get(other) == before.spec_get(other) by {
        if other != id {
            assert(released.spec_get(other) == loaded.spec_get(other));
        }
    }
}

} // verus!
