//! Caches of the renderer: mesh resources and per-object resources, each under an
//! identifier handed out in order from 1.

use std::collections::HashMap;
use std::collections::hash_map::Entry;
use vstd::prelude::*;

verus! {

broadcast use vstd::std_specs::hash::group_hash_axioms;

/// The renderer's caches: mesh resources `M` and per-object resources `O`.
pub struct CacheManager<M, O> {
    mesh_cache: HashMap<u64, M>,
    next_mesh_id: u64,
    object_resources: HashMap<u64, O>,
    next_object_id: u64,
}

impl<M, O> CacheManager<M, O> {
    /// The cached mesh resources by identifier.
    pub closed spec fn meshes(&self) -> Map<u64, M> {
        self.mesh_cache@
    }

    /// The cached object resources by identifier.
    pub closed spec fn objects(&self) -> Map<u64, O> {
        self.object_resources@
    }

    /// The identifier the next cached mesh receives.
    pub closed spec fn spec_next_mesh_id(&self) -> u64 {
        self.next_mesh_id
    }

    /// The identifier the next cached object receives.
    pub closed spec fn spec_next_object_id(&self) -> u64 {
        self.next_object_id
    }

    /// Identifiers in use lie between 1 and the next one to be handed out.
    pub closed spec fn wf(&self) -> bool {
        &&& 1 <= self.next_mesh_id
        &&& 1 <= self.next_object_id
        &&& forall|k: u64| #[trigger] self.mesh_cache@.contains_key(k) ==> 1 <= k < self.next_mesh_id
        &&& forall|k: u64| #[trigger] self.object_resources@.contains_key(k) ==> 1 <= k < self.next_object_id
    }

    /// Empty caches; the first identifiers handed out are 1.
    pub fn new() -> (c: Self)
        ensures
            c.wf(),
            c.meshes() == Map::<u64, M>::empty(),
            c.objects() == Map::<u64, O>::empty(),
            c.spec_next_mesh_id() == 1,
            c.spec_next_object_id() == 1,
    {
        CacheManager { mesh_cache: HashMap::new(), next_mesh_id: 1, object_resources: HashMap::new(), next_object_id: 1 }
    }

    /// Cache a mesh's resources under a fresh identifier.  The identifier is taken
    /// before the resources are created, so `created` (the outcome of creating them)
    /// consumes it either way: on success the resources are cached under it and it is
    /// returned, on failure the error is returned and the identifier stays unused.
    pub fn create_and_cache_mesh<E>(&mut self, created: Result<M, E>) -> (r: Result<u64, E>)
        requires
            old(self).wf(),
            old(self).spec_next_mesh_id() < u64::MAX,
        ensures
            final(self).wf(),
            final(self).spec_next_mesh_id() == old(self).spec_next_mesh_id() + 1,
            !old(self).meshes().contains_key(old(self).spec_next_mesh_id()),
            match created {
                Ok(resources) => r == Ok::<u64, E>(old(self).spec_next_mesh_id())
                    && final(self).meshes() == old(self).meshes().insert(old(self).spec_next_mesh_id(), resources),
                Err(e) => r == Err::<u64, E>(e) && final(self).meshes() == old(self).meshes(),
            },
            final(self).objects() == old(self).objects(),
            final(self).spec_next_object_id() == old(self).spec_next_object_id(),
    {
        let mesh_id = self.next_mesh_id;
        self.next_mesh_id = self.next_mesh_id + 1;
        match created {
            Ok(resources) => {
                self.mesh_cache.insert(mesh_id, resources);
                Ok(mesh_id)
            },
            Err(e) => Err(e),
        }
    }

    /// The resources cached under a mesh identifier.
    pub fn get_cached_mesh(&self, mesh_id: u64) -> (r: Option<&M>)
        ensures
            match r {
                Some(m) => self.meshes().contains_key(mesh_id) && *m == self.meshes()[mesh_id],
                None => !self.meshes().contains_key(mesh_id),
            },
    {
        self.mesh_cache.get(&mesh_id)
    }

    /// Cache an object's resources under a fresh identifier.  The identifier is taken
    /// before the resources are created, so `created` (the outcome of creating them)
    /// consumes it either way: on success the resources are cached under it and it is
    /// returned, on failure the error is returned and the identifier stays unused.
    pub fn create_object_resources<E>(&mut self, created: Result<O, E>) -> (r: Result<u64, E>)
        requires
            old(self).wf(),
            old(self).spec_next_object_id() < u64::MAX,
        ensures
            final(self).wf(),
            final(self).spec_next_object_id() == old(self).spec_next_object_id() + 1,
            !old(self).objects().contains_key(old(self).spec_next_object_id()),
            match created {
                Ok(resources) => r == Ok::<u64, E>(old(self).spec_next_object_id())
                    && final(self).objects() == old(self).objects().insert(old(self).spec_next_object_id(), resources),
                Err(e) => r == Err::<u64, E>(e) && final(self).objects() == old(self).objects(),
            },
            final(self).meshes() == old(self).meshes(),
            final(self).spec_next_mesh_id() == old(self).spec_next_mesh_id(),
    {
        let object_id = self.next_object_id;
        self.next_object_id = self.next_object_id + 1;
        match created {
            Ok(resources) => {
                self.object_resources.insert(object_id, resources);
                Ok(object_id)
            },
            Err(e) => Err(e),
        }
    }

    /// The resources cached under an object identifier.
    pub fn get_object_resources(&self, object_id: u64) -> (r: Option<&O>)
        ensures
            match r {
                Some(o) => self.objects().contains_key(object_id) && *o == self.objects()[object_id],
                None => !self.objects().contains_key(object_id),
            },
    {
        self.object_resources.get(&object_id)
    }
}

impl<M, O> CacheManager<M, O> {
    /// The resources cached under an object identifier, for update.
    pub fn get_object_resources_mut(&mut self, object_id: u64) -> (r: Option<&mut O>)
        requires
            old(self).wf(),
        ensures
            final(self).wf(),
            final(self).meshes() == old(self).meshes(),
            final(self).spec_next_mesh_id() == old(self).spec_next_mesh_id(),
            final(self).spec_next_object_id() == old(self).spec_next_object_id(),
            match r {
                Some(o) => {
                    &&& old(self).objects().contains_key(object_id)
                    &&& *o == old(self).objects()[object_id]
                    &&& final(self).objects() == old(self).objects().insert(object_id, *final(o))
                },
                None => !old(self).objects().contains_key(object_id) && final(self).objects() == old(self).objects(),
            },
    {
        match self.object_resources.entry(object_id) {
            Entry::Occupied(e) => Some(e.into_mut()),
            Entry::Vacant(_) => None,
        }
    }
}

impl<M, O> Default for CacheManager<M, O> {
    fn default() -> (c: Self)
        ensures
            c.wf(),
            c.meshes() == Map::<u64, M>::empty(),
            c.objects() == Map::<u64, O>::empty(),
    {
        CacheManager::new()
    }
}

} // verus!
