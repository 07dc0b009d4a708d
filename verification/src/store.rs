//! The keyed store of compiled background indexes and the latest pointer.
//!
//! What is verified here is the store's sequential meaning: which keys are
//! present, what registering, removing and resolving do, and exactly when a
//! request is answered not-found. The boundary layer wraps these operations
//! in its own per-key read/write locking; blocking and lock order are its
//! concern, the key/value semantics are fixed here.
use vstd::prelude::*;
use std::collections::HashMap;
use crate::index::Bitmap;
use crate::EnrichError;

verus! {

broadcast use vstd::std_specs::hash::group_hash_axioms;

/// The per-process index store: one compiled index per background id, and
/// the id of the most recently built background, used only to resolve the
/// latest-built sentinel.
pub struct IndexStore {
    pub map: HashMap<u128, Bitmap>,
    pub latest: Option<u128>,
}

impl IndexStore {
    /// An empty store: nothing registered, nothing built yet.
    pub fn new() -> (r: Self)
        ensures
            r.map@ == Map::<u128, Bitmap>::empty(),
            r.latest is None,
    {
        IndexStore { map: HashMap::new(), latest: None }
    }

    /// Whether an index (possibly still the registered placeholder) exists
    /// under `id`.
    pub fn contains_key(&self, id: u128) -> (r: bool)
        ensures
            r == self.map@.contains_key(id),
    {
        self.map.contains_key(&id)
    }

    /// Register `bitmap` under `id`, replacing whatever was there. The
    /// latest pointer is untouched: it moves only when a build completes.
    pub fn register(&mut self, id: u128, bitmap: Bitmap)
        ensures
            final(self).map@ == old(self).map@.insert(id, bitmap),
            final(self).latest == old(self).latest,
    {
        self.map.insert(id, bitmap);
    }

    /// Shared access to the index under `id`; nothing if the key was never
    /// registered or has been removed.
    pub fn get(&self, id: u128) -> (r: Option<&Bitmap>)
        ensures
            match r {
                Option::Some(b) => self.map@.contains_key(id) && *b == self.map@[id],
                Option::None => !self.map@.contains_key(id),
            },
    {
        self.map.get(&id)
    }

    /// Remove the index under `id`; reports whether a removal actually
    /// occurred, so racing removals stay idempotent.
    pub fn remove(&mut self, id: u128) -> (r: bool)
        ensures
            final(self).map@ == old(self).map@.remove(id),
            r == old(self).map@.contains_key(id),
            final(self).latest == old(self).latest,
    {
        let had = self.map.remove(&id);
        had.is_some()
    }

    /// Delete the index under `id`: not-found if and only if no index is
    /// registered under `id`, in which case the store is unchanged.
    pub fn delete(&mut self, id: u128) -> (r: Result<(), EnrichError>)
        ensures
            old(self).map@.contains_key(id) ==> r is Ok && final(self).map@ == old(
                self,
            ).map@.remove(id),
            !old(self).map@.contains_key(id) ==> r == Result::<(), EnrichError>::Err(
                EnrichError::NotFound,
            ) && final(self).map@ == old(self).map@,
            final(self).latest == old(self).latest,
    {
        if !self.contains_key(id) {
            return Err(EnrichError::NotFound);
        }
        self.remove(id);
        Ok(())
    }

    /// Record `id` as the most recently built background. Called only after
    /// a build completed, never on failure.
    pub fn set_latest(&mut self, id: u128)
        ensures
            final(self).map@ == old(self).map@,
            final(self).latest == Option::Some(id),
    {
        self.latest = Some(id);
    }

    /// Resolve a request against this store's own latest pointer.
    pub fn resolve(&self, requested: Option<u128>) -> (r: Result<u128, EnrichError>)
        ensures
            match requested {
                Option::Some(id) => r == Result::<u128, EnrichError>::Ok(id),
                Option::None => match self.latest {
                    Option::Some(l) => r == Result::<u128, EnrichError>::Ok(l),
                    Option::None => r == Result::<u128, EnrichError>::Err(EnrichError::NotFound),
                },
            },
    {
        resolve_requested(requested, self.latest)
    }
}

/// Resolve a request that names either a background id or the latest-built
/// sentinel (`None`): the sentinel resolves to the latest pointer, and is
/// not-found exactly when nothing was ever built.
pub fn resolve_requested(requested: Option<u128>, latest: Option<u128>) -> (r: Result<
    u128,
    EnrichError,
>)
    ensures
        match requested {
            Option::Some(id) => r == Result::<u128, EnrichError>::Ok(id),
            Option::None => match latest {
                Option::Some(l) => r == Result::<u128, EnrichError>::Ok(l),
                Option::None => r == Result::<u128, EnrichError>::Err(EnrichError::NotFound),
            },
        },
{
    match requested {
        Some(id) => Ok(id),
        None => match latest {
            Some(l) => Ok(l),
            None => Err(EnrichError::NotFound),
        },
    }
}

} // verus!
