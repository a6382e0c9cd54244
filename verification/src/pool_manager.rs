//! One dynamic object pool per mesh type, so that each pool is drawn as a single batch.
//!
//! Each pool carries the rendering resources of its mesh (`R`), which the library only
//! stores and hands back; creating them is the renderer's business.

use vstd::prelude::*;
use vstd::string::StringExecFns;

use crate::error::VulkanError;
use crate::handles::DynamicObjectHandle;
use crate::mesh_type::MeshType;
use crate::object_manager::{DynamicObjectError, DynamicObjectManager, DynamicObjectStats, DynamicRenderData, ResourceState};

verus! {

/// Errors that can occur during mesh pool management.
#[derive(Debug)]
pub enum PoolManagerError {
    /// No pool exists for the specified mesh type
    PoolNotFound {
        /// The mesh type that was not found
        mesh_type: MeshType,
    },
    /// Failed to create a new pool
    PoolCreationFailed {
        /// The mesh type for which pool creation failed
        mesh_type: MeshType,
        /// Reason for the failure
        reason: String,
    },
    /// Pool-specific operation failed
    PoolOperationFailed {
        /// The mesh type of the pool that failed
        mesh_type: MeshType,
        /// The operation that was attempted
        operation: String,
        /// Reason for the failure
        reason: String,
    },
    /// Vulkan-related error
    VulkanError(VulkanError),
}

impl PoolManagerError {
    /// The text of the error, as it is displayed.
    pub open spec fn spec_message(&self) -> Seq<char> {
        match self {
            PoolManagerError::PoolNotFound { mesh_type } => "No pool found for mesh type: "@
                + mesh_type.name_text(),
            PoolManagerError::PoolCreationFailed { mesh_type, reason } => "Failed to create pool for "@
                + mesh_type.name_text() + ": "@ + reason@,
            PoolManagerError::PoolOperationFailed { mesh_type, operation, reason } => "Pool operation '"@
                + operation@ + "' failed for "@ + mesh_type.name_text() + ": "@ + reason@,
            PoolManagerError::VulkanError(e) => "Vulkan error in pool manager: "@ + e.spec_message(),
        }
    }

    /// The text of the error, as it is displayed.
    pub fn message(&self) -> (s: String)
        ensures
            s@ == self.spec_message(),
    {
        match self {
            PoolManagerError::PoolNotFound { mesh_type } => {
                let mut s = String::from_str("No pool found for mesh type: ");
                s.append(mesh_type.name());
                s
            },
            PoolManagerError::PoolCreationFailed { mesh_type, reason } => {
                let mut s = String::from_str("Failed to create pool for ");
                s.append(mesh_type.name());
                s.append(": ");
                s.append(reason.as_str());
                s
            },
            PoolManagerError::PoolOperationFailed { mesh_type, operation, reason } => {
                let mut s = String::from_str("Pool operation '");
                s.append(operation.as_str());
                s.append("' failed for ");
                s.append(mesh_type.name());
                s.append(": ");
                s.append(reason.as_str());
                s
            },
            PoolManagerError::VulkanError(e) => {
                let mut s = String::from_str("Vulkan error in pool manager: ");
                let m = e.message();
                s.append(m.as_str());
                s
            },
        }
    }
}

/// Statistics for the mesh pool manager.
#[derive(Debug, Clone, Copy, PartialEq, Eq, Structural)]
pub struct PoolManagerStats {
    /// Total number of pools
    pub active_pools: usize,
    /// Total occupied slots across all pools
    pub total_active_objects: usize,
    /// Objects spawned since creation
    pub total_spawned: u64,
    /// Objects despawned since creation
    pub total_despawned: u64,
    /// Number of render batches per frame: one per pool with an occupied slot
    pub render_batches_per_frame: usize,
}

/// Number of occupied slots of a pool.
pub open spec fn occupied<P>(m: DynamicObjectManager<P>) -> int {
    m.spec_max_instances() - m.pool().free_list().len()
}

/// Total occupied slots of the pools in `s`.
pub open spec fn active_total<P, R>(s: Seq<(MeshType, DynamicObjectManager<P>, R)>) -> int
    decreases s.len(),
{
    if s.len() == 0 {
        0
    } else {
        active_total(s.drop_last()) + occupied(s.last().1)
    }
}

/// Total capacity of the pools in `s`.
pub open spec fn capacity_total<P, R>(s: Seq<(MeshType, DynamicObjectManager<P>, R)>) -> int
    decreases s.len(),
{
    if s.len() == 0 {
        0
    } else {
        capacity_total(s.drop_last()) + s.last().1.spec_max_instances()
    }
}

/// The mesh types of the pools in `s` that have an occupied slot, in pool order.
pub open spec fn busy_types<P, R>(s: Seq<(MeshType, DynamicObjectManager<P>, R)>) -> Seq<MeshType>
    decreases s.len(),
{
    if s.len() == 0 {
        Seq::empty()
    } else if occupied(s.last().1) > 0 {
        busy_types(s.drop_last()).push(s.last().0)
    } else {
        busy_types(s.drop_last())
    }
}

/// The handles of `expired` that are tagged with mesh type `m`, in order.
pub open spec fn handles_for(expired: Seq<(MeshType, DynamicObjectHandle)>, m: MeshType) -> Seq<
    DynamicObjectHandle,
>
    decreases expired.len(),
{
    if expired.len() == 0 {
        Seq::empty()
    } else if expired.last().0 == m {
        handles_for(expired.drop_last(), m).push(expired.last().1)
    } else {
        handles_for(expired.drop_last(), m)
    }
}

/// For well-formed pools: every prefix's totals are bounded by the whole's, occupied
/// slots never exceed capacity, and at most one batch per pool is drawn.
pub proof fn lemma_totals<P, R>(s: Seq<(MeshType, DynamicObjectManager<P>, R)>, k: int)
    requires
        forall|i: int| 0 <= i < s.len() ==> #[trigger] s[i].1.wf(),
        0 <= k <= s.len(),
    ensures
        0 <= active_total(s.take(k)) <= capacity_total(s.take(k)) <= capacity_total(s),
        0 <= active_total(s.take(k)) <= active_total(s),
        busy_types(s.take(k)).len() <= busy_types(s).len(),
        busy_types(s).len() <= s.len(),
    decreases s.len(),
{
    if s.len() == 0 {
        assert(s.take(k) =~= s);
    } else {
        let t = s.drop_last();
        assert forall|i: int| 0 <= i < t.len() implies #[trigger] t[i].1.wf() by {
            assert(t[i] == s[i]);
        }
        s.last().1.lemma_wf();
        if k == s.len() {
            assert(s.take(k) =~= s);
            lemma_totals(t, t.len() as int);
            assert(t.take(t.len() as int) =~= t);
        } else {
            lemma_totals(t, k);
            assert(s.take(k) =~= t.take(k));
        }
    }
}

/// Pools of dynamic objects, one per mesh type, each with its rendering resources `R`.
pub struct MeshPoolManager<P, R> {
    pools: Vec<(MeshType, DynamicObjectManager<P>, R)>,
    stats: PoolManagerStats,
}

impl<P: Default + Clone, R> MeshPoolManager<P, R> {
    /// The pools, in creation order: mesh type, object manager, rendering resources.
    pub closed spec fn entries(&self) -> Seq<(MeshType, DynamicObjectManager<P>, R)> {
        self.pools@
    }

    /// The statistics.
    pub closed spec fn spec_stats(&self) -> PoolManagerStats {
        self.stats
    }

    /// Whether a pool exists for mesh type `m`.
    pub open spec fn has_type(&self, m: MeshType) -> bool {
        exists|i: int| 0 <= i < self.entries().len() && #[trigger] self.entries()[i].0 == m
    }

    /// The position of the pool of mesh type `m`.
    pub open spec fn index_of(&self, m: MeshType) -> int {
        choose|i: int| 0 <= i < self.entries().len() && #[trigger] self.entries()[i].0 == m
    }

    /// Invariant: every pool is well formed, no mesh type has two pools, the total
    /// capacity fits in a `usize`, and the statistics describe the pools.
    pub closed spec fn wf(&self) -> bool {
        &&& forall|i: int| 0 <= i < self.pools@.len() ==> #[trigger] self.pools@[i].1.wf()
        &&& forall|i: int, j: int|
            0 <= i < j < self.pools@.len() ==> #[trigger] self.pools@[i].0 != #[trigger] self.pools@[j].0
        &&& capacity_total(self.pools@) <= usize::MAX
        &&& self.stats.active_pools == self.pools@.len()
        &&& self.stats.total_active_objects == active_total(self.pools@)
        &&& self.stats.render_batches_per_frame == busy_types(self.pools@).len()
    }

    /// What a well-formed manager's invariant says.
    pub proof fn lemma_wf(&self)
        requires
            self.wf(),
        ensures
            forall|i: int| 0 <= i < self.entries().len() ==> #[trigger] self.entries()[i].1.wf(),
            forall|i: int, j: int|
                0 <= i < j < self.entries().len() ==> #[trigger] self.entries()[i].0
                    != #[trigger] self.entries()[j].0,
            capacity_total(self.entries()) <= usize::MAX,
            self.spec_stats().active_pools == self.entries().len(),
            self.spec_stats().total_active_objects == active_total(self.entries()),
            self.spec_stats().render_batches_per_frame == busy_types(self.entries()).len(),
    {
    }

    /// Position of the pool of mesh type `m`, if there is one.
    fn find(&self, m: MeshType) -> (r: Option<usize>)
        requires
            self.wf(),
        ensures
            r matches Some(i) ==> self.has_type(m) && i == self.index_of(m) && i < self.entries().len(),
            r is None ==> !self.has_type(m),
    {
        let mut i: usize = 0;
        while i < self.pools.len()
            invariant
                self.wf(),
                i <= self.pools@.len(),
                forall|j: int| 0 <= j < i ==> #[trigger] self.pools@[j].0 != m,
            decreases self.pools@.len() - i,
        {
            if self.pools[i].0 == m {
                proof {
                    assert(self.entries()[i as int].0 == m);
                    let k = self.index_of(m);
                    if k != i as int {
                        if k < i as int {
                            assert(self.pools@[k].0 != self.pools@[i as int].0);
                        } else {
                            assert(self.pools@[i as int].0 != self.pools@[k].0);
                        }
                    }
                }
                return Some(i);
            }
            i = i + 1;
        }
        None
    }

    /// Total occupied slots across all pools.
    pub fn total_active_objects(&self) -> (n: usize)
        requires
            self.wf(),
        ensures
            n == active_total(self.entries()),
    {
        let mut total: usize = 0;
        let mut i: usize = 0;
        while i < self.pools.len()
            invariant
                self.wf(),
                i <= self.pools@.len(),
                total == active_total(self.pools@.take(i as int)),
            decreases self.pools@.len() - i,
        {
            proof {
                lemma_totals(self.pools@, i as int + 1);
                assert(self.pools@.take(i as int + 1).drop_last() =~= self.pools@.take(i as int));
                self.pools@[i as int].1.lemma_wf();
            }
            total = total + self.pools[i].1.active_count();
            i = i + 1;
        }
        assert(self.pools@.take(i as int) =~= self.pools@);
        total
    }

    /// The mesh types of the pools that have an occupied slot, in pool order.
    pub fn active_pools(&self) -> (v: Vec<MeshType>)
        requires
            self.wf(),
        ensures
            v@ == busy_types(self.entries()),
    {
        let mut v: Vec<MeshType> = Vec::new();
        let mut i: usize = 0;
        while i < self.pools.len()
            invariant
                self.wf(),
                i <= self.pools@.len(),
                v@ == busy_types(self.pools@.take(i as int)),
            decreases self.pools@.len() - i,
        {
            proof {
                assert(self.pools@.take(i as int + 1).drop_last() =~= self.pools@.take(i as int));
                self.pools@[i as int].1.lemma_wf();
            }
            if self.pools[i].1.active_count() > 0 {
                v.push(self.pools[i].0);
            }
            i = i + 1;
        }
        assert(self.pools@.take(i as int) =~= self.pools@);
        v
    }

    /// Number of pools with an occupied slot.
    fn busy_pool_count(&self) -> (n: usize)
        requires
            self.wf(),
        ensures
            n == busy_types(self.entries()).len(),
    {
        let v = self.active_pools();
        proof {
            lemma_totals(self.pools@, 0);
        }
        v.len()
    }

    /// The statistics.
    pub fn get_stats(&self) -> (s: PoolManagerStats)
        ensures
            s == self.spec_stats(),
    {
        self.stats
    }

    /// Active object count and capacity of the pool of mesh type `m`, if there is one.
    pub fn get_pool_stats(&self, m: MeshType) -> (r: Option<(usize, usize)>)
        requires
            self.wf(),
        ensures
            self.has_type(m) ==> r == Some(
                (
                    occupied(self.entries()[self.index_of(m)].1) as usize,
                    self.entries()[self.index_of(m)].1.spec_max_instances() as usize,
                ),
            ),
            !self.has_type(m) ==> r is None,
    {
        match self.find(m) {
            Some(i) => {
                proof {
                    self.pools@[i as int].1.lemma_wf();
                }
                Some((self.pools[i].1.active_count(), self.pools[i].1.capacity()))
            },
            None => None,
        }
    }

    /// Whether any pool exists.
    pub fn has_pools(&self) -> (b: bool)
        ensures
            b == (self.entries().len() > 0),
    {
        self.pools.len() > 0
    }

    /// Whether a pool exists for mesh type `m`.
    pub fn has_pool(&self, m: MeshType) -> (b: bool)
        requires
            self.wf(),
        ensures
            b == self.has_type(m),
    {
        self.find(m).is_some()
    }

    /// The object manager and rendering resources of the pool of mesh type `m`.
    pub fn get_pool(&self, m: MeshType) -> (r: Option<(&DynamicObjectManager<P>, &R)>)
        requires
            self.wf(),
        ensures
            self.has_type(m) ==> (r matches Some((pool, res)) && *pool == self.entries()[self.index_of(m)].1
                && *res == self.entries()[self.index_of(m)].2),
            !self.has_type(m) ==> r is None,
    {
        match self.find(m) {
            Some(i) => Some((&self.pools[i].1, &self.pools[i].2)),
            None => None,
        }
    }

    /// The active handles of the pool of mesh type `m`, if there is one.
    pub fn get_active_objects(&self, m: MeshType) -> (r: Option<&[DynamicObjectHandle]>)
        requires
            self.wf(),
        ensures
            self.has_type(m) ==> (r matches Some(hs) && hs@ == self.entries()[self.index_of(m)].1.active_seq()),
            !self.has_type(m) ==> r is None,
    {
        match self.find(m) {
            Some(i) => Some(self.pools[i].1.get_active_objects()),
            None => None,
        }
    }

    /// Recompute the derived statistics from the pools.
    fn update_stats(&mut self)
        requires
            forall|i: int| 0 <= i < old(self).pools@.len() ==> #[trigger] old(self).pools@[i].1.wf(),
            forall|i: int, j: int|
                0 <= i < j < old(self).pools@.len() ==> #[trigger] old(self).pools@[i].0
                    != #[trigger] old(self).pools@[j].0,
            capacity_total(old(self).pools@) <= usize::MAX,
        ensures
            final(self).wf(),
            final(self).pools == old(self).pools,
            final(self).stats.total_spawned == old(self).stats.total_spawned,
            final(self).stats.total_despawned == old(self).stats.total_despawned,
    {
        self.stats.active_pools = self.pools.len();
        self.stats.total_active_objects = 0;
        self.stats.render_batches_per_frame = 0;
        let mut total: usize = 0;
        let mut busy: usize = 0;
        let mut i: usize = 0;
        while i < self.pools.len()
            invariant
                forall|k: int| 0 <= k < self.pools@.len() ==> #[trigger] self.pools@[k].1.wf(),
                capacity_total(self.pools@) <= usize::MAX,
                i <= self.pools@.len(),
                total == active_total(self.pools@.take(i as int)),
                busy == busy_types(self.pools@.take(i as int)).len(),
            decreases self.pools@.len() - i,
        {
            proof {
                lemma_totals(self.pools@, i as int + 1);
                assert(self.pools@.take(i as int + 1).drop_last() =~= self.pools@.take(i as int));
                self.pools@[i as int].1.lemma_wf();
            }
            let n = self.pools[i].1.active_count();
            total = total + n;
            if n > 0 {
                busy = busy + 1;
            }
            i = i + 1;
        }
        assert(self.pools@.take(i as int) =~= self.pools@);
        self.stats.total_active_objects = total;
        self.stats.render_batches_per_frame = busy;
    }
}

impl<P: Default + Clone, R> MeshPoolManager<P, R> {
    /// Create a manager with no pools.
    pub fn new() -> (m: Self)
        ensures
            m.wf(),
            m.entries().len() == 0,
            m.spec_stats() == (PoolManagerStats {
                active_pools: 0,
                total_active_objects: 0,
                total_spawned: 0,
                total_despawned: 0,
                render_batches_per_frame: 0,
            }),
    {
        let m = MeshPoolManager {
            pools: Vec::new(),
            stats: PoolManagerStats {
                active_pools: 0,
                total_active_objects: 0,
                total_spawned: 0,
                total_despawned: 0,
                render_batches_per_frame: 0,
            },
        };
        assert(busy_types(m.pools@) =~= Seq::<MeshType>::empty());
        m
    }

    /// Create the pool of mesh type `m` with `max_objects` slots and its rendering
    /// resources.  Refused with `PoolCreationFailed` when the mesh type has a pool.
    pub fn create_pool(&mut self, mesh_type: MeshType, shared_resources: R, max_objects: usize) -> (r: Result<
        (),
        PoolManagerError,
    >)
        requires
            old(self).wf(),
            max_objects <= 0xFFFF_FFFFusize,
            capacity_total(old(self).entries()) + max_objects <= usize::MAX,
        ensures
            final(self).wf(),
            old(self).has_type(mesh_type) ==> {
                &&& r matches Err(PoolManagerError::PoolCreationFailed { mesh_type: t, reason })
                    && t == mesh_type && reason@ == "Pool already exists for this mesh type"@
                &&& final(self).entries() == old(self).entries()
                &&& final(self).spec_stats() == old(self).spec_stats()
            },
            !old(self).has_type(mesh_type) ==> {
                let e = final(self).entries().last();
                &&& r is Ok
                &&& final(self).entries().len() == old(self).entries().len() + 1
                &&& final(self).entries().drop_last() == old(self).entries()
                &&& e.0 == mesh_type
                &&& e.2 == shared_resources
                &&& e.1.spec_max_instances() == max_objects
                &&& e.1.active_seq().len() == 0
                &&& e.1.pool().free_list().len() == max_objects
                &&& e.1.spec_stats() == (DynamicObjectStats {
                    total_spawned: 0,
                    total_despawned: 0,
                    current_active: 0,
                    peak_active: 0,
                    pool_exhaustions: 0,
                })
                &&& final(self).spec_stats() == (PoolManagerStats {
                    active_pools: final(self).entries().len() as usize,
                    ..old(self).spec_stats()
                })
            },
    {
        if self.find(mesh_type).is_some() {
            return Err(PoolManagerError::PoolCreationFailed {
                mesh_type,
                reason: String::from_str("Pool already exists for this mesh type"),
            });
        }
        let pool = DynamicObjectManager::new(max_objects);
        let ghost pools0 = self.pools@;
        self.pools.push((mesh_type, pool, shared_resources));
        proof {
            let s = self.pools@;
            assert(s.drop_last() =~= pools0);
            s.last().1.lemma_wf();
            assert forall|i: int, j: int| 0 <= i < j < s.len() implies #[trigger] s[i].0 != #[trigger] s[j].0 by {
                if j == s.len() - 1 {
                    assert(pools0[i].0 == s[i].0);
                    assert(!(0 <= i < pools0.len() && pools0[i].0 == mesh_type));
                } else {
                    assert(pools0[i] == s[i] && pools0[j] == s[j]);
                }
            }
            assert forall|i: int| 0 <= i < s.len() implies #[trigger] s[i].1.wf() by {
                if i < s.len() - 1 {
                    assert(pools0[i] == s[i]);
                }
            }
        }
        self.stats.active_pools = self.pools.len();
        Ok(())
    }

    /// Every pool receives its rendering resources when it is created, so there is
    /// nothing left to validate.
    pub fn initialize_pools(&mut self) -> (r: Result<(), PoolManagerError>)
        requires
            old(self).wf(),
        ensures
            r is Ok,
            *final(self) == *old(self),
    {
        Ok(())
    }

    /// Spawn an object carrying `params` into the pool of mesh type `m`.  Fails with
    /// `PoolNotFound` when there is no such pool and with `PoolOperationFailed` when the
    /// pool refuses the spawn.
    pub fn spawn_object(&mut self, mesh_type: MeshType, params: P) -> (r: Result<DynamicObjectHandle, PoolManagerError>)
        requires
            old(self).wf(),
            old(self).spec_stats().total_spawned < u64::MAX,
            old(self).has_type(mesh_type) ==> {
                let p = old(self).entries()[old(self).index_of(mesh_type)].1;
                &&& p.pool().free_list().len() > 0 ==> p.spec_stats().total_spawned < u64::MAX
                &&& p.pool().free_list().len() == 0 ==> p.spec_stats().pool_exhaustions < u64::MAX
            },
        ensures
            final(self).wf(),
            !old(self).has_type(mesh_type) ==> {
                &&& r matches Err(PoolManagerError::PoolNotFound { mesh_type: t }) && t == mesh_type
                &&& final(self).entries() == old(self).entries()
                &&& final(self).spec_stats() == old(self).spec_stats()
            },
            old(self).has_type(mesh_type) ==> {
                let i = old(self).index_of(mesh_type);
                let p0 = old(self).entries()[i].1;
                &&& final(self).entries().len() == old(self).entries().len()
                &&& forall|j: int| 0 <= j < old(self).entries().len() && j != i ==>
                    #[trigger] final(self).entries()[j] == old(self).entries()[j]
                &&& final(self).entries()[i].0 == mesh_type
                &&& final(self).entries()[i].2 == old(self).entries()[i].2
                &&& DynamicObjectManager::spawn_post(p0, final(self).entries()[i].1, params)
                &&& match DynamicObjectManager::spawn_result(p0) {
                    Ok(h) => {
                        &&& r matches Ok(h1) && h1 == h
                        &&& final(self).spec_stats().total_spawned == old(self).spec_stats().total_spawned + 1
                    },
                    Err(e) => {
                        &&& r matches Err(PoolManagerError::PoolOperationFailed { mesh_type: t, operation, reason })
                            && t == mesh_type && operation@ == "spawn_object"@ && reason@ == e.spec_message()
                        &&& final(self).spec_stats().total_spawned == old(self).spec_stats().total_spawned
                    },
                }
                &&& final(self).spec_stats().total_despawned == old(self).spec_stats().total_despawned
            },
    {
        let i = match self.find(mesh_type) {
            Some(i) => i,
            None => {
                return Err(PoolManagerError::PoolNotFound { mesh_type });
            },
        };
        let ghost pools0 = self.pools@;
        proof {
            pools0[i as int].1.lemma_wf();
        }
        let res = self.pools[i].1.spawn_object(params);
        proof {
            let s = self.pools@;
            assert forall|j: int| 0 <= j < s.len() && j != i implies #[trigger] s[j] == pools0[j] by {}
            assert forall|j: int| 0 <= j < s.len() implies #[trigger] s[j].1.wf() by {
                if j != i {
                    assert(s[j] == pools0[j]);
                }
            }
            assert forall|a: int, b: int| 0 <= a < b < s.len() implies #[trigger] s[a].0 != #[trigger] s[b].0 by {
                assert(s[a].0 == pools0[a].0 && s[b].0 == pools0[b].0);
            }
            lemma_capacity_same(pools0, s);
        }
        match res {
            Ok(handle) => {
                self.stats.total_spawned = self.stats.total_spawned + 1;
                self.update_stats();
                Ok(handle)
            },
            Err(e) => {
                self.update_stats();
                let reason = e.message();
                Err(PoolManagerError::PoolOperationFailed {
                    mesh_type,
                    operation: String::from_str("spawn_object"),
                    reason,
                })
            },
        }
    }
}

impl<P: Default + Clone, R> MeshPoolManager<P, R> {
    /// Despawn an object of the pool of mesh type `m`.  Fails with `PoolNotFound` when
    /// there is no such pool and with `PoolOperationFailed` when the pool refuses the
    /// handle.
    pub fn despawn_object(&mut self, mesh_type: MeshType, handle: DynamicObjectHandle) -> (r: Result<(), PoolManagerError>)
        requires
            old(self).wf(),
            old(self).spec_stats().total_despawned < u64::MAX,
        ensures
            final(self).wf(),
            !old(self).has_type(mesh_type) ==> {
                &&& r matches Err(PoolManagerError::PoolNotFound { mesh_type: t }) && t == mesh_type
                &&& final(self).entries() == old(self).entries()
                &&& final(self).spec_stats() == old(self).spec_stats()
            },
            old(self).has_type(mesh_type) ==> {
                let i = old(self).index_of(mesh_type);
                let p0 = old(self).entries()[i].1;
                &&& final(self).entries().len() == old(self).entries().len()
                &&& forall|j: int| 0 <= j < old(self).entries().len() && j != i ==>
                    #[trigger] final(self).entries()[j] == old(self).entries()[j]
                &&& final(self).entries()[i].0 == mesh_type
                &&& final(self).entries()[i].2 == old(self).entries()[i].2
                &&& DynamicObjectManager::despawn_post(p0, final(self).entries()[i].1, handle)
                &&& final(self).spec_stats().total_spawned == old(self).spec_stats().total_spawned
                &&& p0.pool().handle_valid(handle) ==> {
                    &&& r is Ok
                    &&& final(self).spec_stats().total_despawned == old(self).spec_stats().total_despawned + 1
                }
                &&& !p0.pool().handle_valid(handle) ==> {
                    &&& r matches Err(PoolManagerError::PoolOperationFailed { mesh_type: t, operation, reason })
                        && t == mesh_type && operation@ == "despawn_object"@ && reason@ == "Invalid handle "@
                            + handle.spec_debug_text() + ": "@ + "Handle generation mismatch or invalid index"@
                    &&& final(self).spec_stats().total_despawned == old(self).spec_stats().total_despawned
                }
            },
    {
        let i = match self.find(mesh_type) {
            Some(i) => i,
            None => {
                return Err(PoolManagerError::PoolNotFound { mesh_type });
            },
        };
        let ghost pools0 = self.pools@;
        let res = self.pools[i].1.despawn_object(handle);
        proof {
            let s = self.pools@;
            assert forall|j: int| 0 <= j < s.len() && j != i implies #[trigger] s[j] == pools0[j] by {}
            assert forall|j: int| 0 <= j < s.len() implies #[trigger] s[j].1.wf() by {
                if j != i {
                    assert(s[j] == pools0[j]);
                }
            }
            assert forall|a: int, b: int| 0 <= a < b < s.len() implies #[trigger] s[a].0 != #[trigger] s[b].0 by {
                assert(s[a].0 == pools0[a].0 && s[b].0 == pools0[b].0);
            }
            lemma_capacity_same(pools0, s);
        }
        match res {
            Ok(()) => {
                self.stats.total_despawned = self.stats.total_despawned + 1;
                self.update_stats();
                Ok(())
            },
            Err(e) => {
                self.update_stats();
                let reason = e.message();
                Err(PoolManagerError::PoolOperationFailed {
                    mesh_type,
                    operation: String::from_str("despawn_object"),
                    reason,
                })
            },
        }
    }

    /// The render data of an object of the pool of mesh type `m`, or `None` when there is
    /// no such pool or the handle is stale or out of range.
    pub fn get_object(&self, mesh_type: MeshType, handle: DynamicObjectHandle) -> (r: Option<&DynamicRenderData<P>>)
        requires
            self.wf(),
        ensures
            self.has_type(mesh_type) && self.entries()[self.index_of(mesh_type)].1.pool().handle_valid(handle)
                ==> r == Some(&self.entries()[self.index_of(mesh_type)].1.object_of(handle)),
            !(self.has_type(mesh_type) && self.entries()[self.index_of(mesh_type)].1.pool().handle_valid(handle))
                ==> r is None,
    {
        match self.find(mesh_type) {
            Some(i) => {
                proof {
                    self.pools@[i as int].1.lemma_wf();
                }
                match self.pools[i].1.get_object(handle) {
                    Ok(d) => Some(d),
                    Err(_) => None,
                }
            },
            None => None,
        }
    }

    /// Replace the payload of an object of the pool of mesh type `m`.  Fails with
    /// `ResourceCreationFailed` when there is no such pool, and as the pool's
    /// `update_object_data` does otherwise.
    pub fn update_object_data(&mut self, mesh_type: MeshType, handle: DynamicObjectHandle, data: P) -> (r: Result<
        (),
        DynamicObjectError,
    >)
        requires
            old(self).wf(),
        ensures
            final(self).wf(),
            final(self).spec_stats() == old(self).spec_stats(),
            !old(self).has_type(mesh_type) ==> {
                &&& r matches Err(DynamicObjectError::ResourceCreationFailed(msg))
                    && msg@ == "No pool found for mesh type: "@ + mesh_type.name_text()
                &&& final(self).entries() == old(self).entries()
            },
            old(self).has_type(mesh_type) ==> {
                let i = old(self).index_of(mesh_type);
                let p0 = old(self).entries()[i].1;
                let p1 = final(self).entries()[i].1;
                &&& final(self).entries().len() == old(self).entries().len()
                &&& forall|j: int| 0 <= j < old(self).entries().len() && j != i ==>
                    #[trigger] final(self).entries()[j] == old(self).entries()[j]
                &&& final(self).entries()[i].0 == mesh_type
                &&& final(self).entries()[i].2 == old(self).entries()[i].2
                &&& p1.active_seq() == p0.active_seq()
                &&& p1.spec_stats() == p0.spec_stats()
                &&& p1.spec_max_instances() == p0.spec_max_instances()
                &&& p1.pool().free_list() == p0.pool().free_list()
                &&& p1.pool().generation_seq() == p0.pool().generation_seq()
                &&& p0.pool().handle_valid(handle) ==> {
                    &&& r is Ok
                    &&& p1.pool().object_seq() == p0.pool().object_seq().update(
                        handle.index as int,
                        DynamicRenderData { data, ..p0.object_of(handle) },
                    )
                }
                &&& !p0.pool().handle_valid(handle) ==> {
                    &&& r matches Err(DynamicObjectError::InvalidHandle { handle: h, reason })
                        && h == handle && reason@ == "Object not found or generation mismatch"@
                    &&& p1.pool() == p0.pool()
                }
            },
    {
        let i = match self.find(mesh_type) {
            Some(i) => i,
            None => {
                let mut msg = String::from_str("No pool found for mesh type: ");
                msg.append(mesh_type.name());
                return Err(DynamicObjectError::ResourceCreationFailed(msg));
            },
        };
        let ghost pools0 = self.pools@;
        let res = self.pools[i].1.update_object_data(handle, data);
        proof {
            let s = self.pools@;
            assert forall|j: int| 0 <= j < s.len() && j != i implies #[trigger] s[j] == pools0[j] by {}
            assert forall|j: int| 0 <= j < s.len() implies #[trigger] s[j].1.wf() by {
                if j != i {
                    assert(s[j] == pools0[j]);
                }
            }
            assert forall|a: int, b: int| 0 <= a < b < s.len() implies #[trigger] s[a].0 != #[trigger] s[b].0 by {
                assert(s[a].0 == pools0[a].0 && s[b].0 == pools0[b].0);
            }
            lemma_capacity_same(pools0, s);
            lemma_active_same(pools0, s);
        }
        res
    }
}

/// The handles of `expired` tagged with mesh type `m`, in order.
fn select_handles(expired: &[(MeshType, DynamicObjectHandle)], m: MeshType) -> (v: Vec<DynamicObjectHandle>)
    ensures
        v@ == handles_for(expired@, m),
{
    let mut v: Vec<DynamicObjectHandle> = Vec::new();
    let mut k: usize = 0;
    while k < expired.len()
        invariant
            k <= expired@.len(),
            v@ == handles_for(expired@.take(k as int), m),
        decreases expired@.len() - k,
    {
        proof {
            assert(expired@.take(k as int + 1).drop_last() =~= expired@.take(k as int));
        }
        if expired[k].0 == m {
            v.push(expired[k].1);
        }
        k = k + 1;
    }
    assert(expired@.take(k as int) =~= expired@);
    v
}

impl<P: Default + Clone, R> MeshPoolManager<P, R> {
    /// The state change of `update_all_pools`: the pools keep their mesh types and
    /// resources, and each is updated with the handles of `expired` tagged with its
    /// mesh type.
    pub open spec fn update_all_post(m0: Self, m1: Self, expired: Seq<(MeshType, DynamicObjectHandle)>) -> bool {
        &&& m1.entries().len() == m0.entries().len()
        &&& forall|i: int| 0 <= i < m0.entries().len() ==> {
            &&& #[trigger] m1.entries()[i].0 == m0.entries()[i].0
            &&& m1.entries()[i].2 == m0.entries()[i].2
            &&& DynamicObjectManager::update_post(
                m0.entries()[i].1,
                m1.entries()[i].1,
                handles_for(expired, m0.entries()[i].0),
            )
        }
    }

    /// Per-frame update of every pool: each pool releases its despawned objects and the
    /// handles of `expired` tagged with its mesh type.
    pub fn update_all_pools(&mut self, expired: &[(MeshType, DynamicObjectHandle)])
        requires
            old(self).wf(),
            forall|i: int| 0 <= i < old(self).entries().len() ==>
                #[trigger] old(self).entries()[i].1.spec_stats().total_despawned
                    + old(self).entries()[i].1.active_seq().len() <= u64::MAX,
        ensures
            final(self).wf(),
            Self::update_all_post(*old(self), *final(self), expired@),
            final(self).spec_stats().total_spawned == old(self).spec_stats().total_spawned,
            final(self).spec_stats().total_despawned == old(self).spec_stats().total_despawned,
    {
        let ghost pools0 = self.pools@;
        proof {
            assert forall|j: int| 0 <= j < pools0.len() implies
                #[trigger] pools0[j].1.spec_stats().total_despawned + pools0[j].1.active_seq().len() <= u64::MAX by {
                assert(old(self).entries()[j] == pools0[j]);
            }
        }
        let mut i: usize = 0;
        while i < self.pools.len()
            invariant
                self.pools@.len() == pools0.len(),
                i <= pools0.len(),
                capacity_total(self.pools@) <= usize::MAX,
                self.stats.total_spawned == old(self).stats.total_spawned,
                self.stats.total_despawned == old(self).stats.total_despawned,
                pools0 == old(self).pools@,
                old(self).wf(),
                forall|j: int| 0 <= j < pools0.len() ==> #[trigger] self.pools@[j].1.wf(),
                forall|j: int| 0 <= j < pools0.len() ==> #[trigger] self.pools@[j].0 == pools0[j].0,
                forall|j: int| 0 <= j < pools0.len() ==> #[trigger] self.pools@[j].2 == pools0[j].2,
                forall|j: int| 0 <= j < pools0.len() ==> #[trigger] self.pools@[j].1.spec_max_instances()
                    == pools0[j].1.spec_max_instances(),
                forall|j: int| i <= j < pools0.len() ==> #[trigger] self.pools@[j].1 == pools0[j].1,
                forall|j: int| 0 <= j < i ==> DynamicObjectManager::update_post(
                    pools0[j].1,
                    #[trigger] self.pools@[j].1,
                    handles_for(expired@, pools0[j].0),
                ),
                forall|j: int| 0 <= j < pools0.len() ==>
                    #[trigger] pools0[j].1.spec_stats().total_despawned + pools0[j].1.active_seq().len() <= u64::MAX,
            decreases pools0.len() - i,
        {
            let hs = select_handles(expired, self.pools[i].0);
            let ghost before = self.pools@;
            self.pools[i].1.update(hs.as_slice());
            proof {
                let s = self.pools@;
                assert forall|j: int| 0 <= j < s.len() && j != i implies #[trigger] s[j] == before[j] by {}
                lemma_capacity_same(before, s);
            }
            i = i + 1;
        }
        proof {
            let s = self.pools@;
            assert forall|a: int, b: int| 0 <= a < b < s.len() implies #[trigger] s[a].0 != #[trigger] s[b].0 by {
                assert(s[a].0 == pools0[a].0 && s[b].0 == pools0[b].0);
            }
        }
        self.update_stats();
    }
}

impl<P: Default + Clone, R> Default for MeshPoolManager<P, R> {
    fn default() -> (m: Self)
        ensures
            m.wf(),
            m.entries().len() == 0,
    {
        MeshPoolManager::new()
    }
}

/// Pools whose occupancy is unchanged keep the active total and the busy types.
proof fn lemma_active_same<P, R>(a: Seq<(MeshType, DynamicObjectManager<P>, R)>, b: Seq<(MeshType, DynamicObjectManager<P>, R)>)
    requires
        a.len() == b.len(),
        forall|i: int| 0 <= i < a.len() ==> #[trigger] occupied(a[i].1) == occupied(b[i].1),
        forall|i: int| 0 <= i < a.len() ==> #[trigger] a[i].0 == b[i].0,
    ensures
        active_total(a) == active_total(b),
        busy_types(a) == busy_types(b),
    decreases a.len(),
{
    if a.len() > 0 {
        let a1 = a.drop_last();
        let b1 = b.drop_last();
        assert forall|i: int| 0 <= i < a1.len() implies #[trigger] occupied(a1[i].1) == occupied(b1[i].1) by {
            assert(a1[i] == a[i] && b1[i] == b[i]);
        }
        assert forall|i: int| 0 <= i < a1.len() implies #[trigger] a1[i].0 == b1[i].0 by {
            assert(a1[i] == a[i] && b1[i] == b[i]);
        }
        lemma_active_same(a1, b1);
    }
}

/// The statistics of a manager describe its pools: one render batch per pool that has
/// an occupied slot (so never more batches than pools), and the active object total is
/// the pools' occupancy summed, which never exceeds their total capacity.
pub proof fn law_pool_statistics<P: Default + Clone, R>(m: MeshPoolManager<P, R>)
    requires
        m.wf(),
    ensures
        m.spec_stats().render_batches_per_frame == busy_types(m.entries()).len(),
        m.spec_stats().render_batches_per_frame <= m.spec_stats().active_pools,
        m.spec_stats().active_pools == m.entries().len(),
        m.spec_stats().total_active_objects == active_total(m.entries()),
        m.spec_stats().total_active_objects <= capacity_total(m.entries()),
{
    m.lemma_wf();
    lemma_totals(m.entries(), m.entries().len() as int);
    assert(m.entries().take(m.entries().len() as int) =~= m.entries());
}

/// No two pools of a manager serve the same mesh type.
pub proof fn law_one_pool_per_mesh_type<P: Default + Clone, R>(m: MeshPoolManager<P, R>, i: int, j: int)
    requires
        m.wf(),
        0 <= i < m.entries().len(),
        0 <= j < m.entries().len(),
        i != j,
    ensures
        m.entries()[i].0 != m.entries()[j].0,
{
    m.lemma_wf();
    if j < i {
        assert(m.entries()[j].0 != m.entries()[i].0);
    }
}

/// Replacing pools by pools of the same capacities keeps the total capacity.
proof fn lemma_capacity_same<P, R>(a: Seq<(MeshType, DynamicObjectManager<P>, R)>, b: Seq<(MeshType, DynamicObjectManager<P>, R)>)
    requires
        a.len() == b.len(),
        forall|i: int| 0 <= i < a.len() ==> #[trigger] a[i].1.spec_max_instances() == b[i].1.spec_max_instances(),
    ensures
        capacity_total(a) == capacity_total(b),
    decreases a.len(),
{
    if a.len() > 0 {
        let a1 = a.drop_last();
        let b1 = b.drop_last();
        assert forall|i: int| 0 <= i < a1.len() implies #[trigger] a1[i].1.spec_max_instances() == b1[i].1.spec_max_instances() by {
            assert(a1[i] == a[i] && b1[i] == b[i]);
        }
        lemma_capacity_same(a1, b1);
    }
}


/// A handle is among those of `expired` tagged with `m` exactly when `expired` lists it
/// under `m`.
proof fn lemma_handles_for_contains(expired: Seq<(MeshType, DynamicObjectHandle)>, m: MeshType, h: DynamicObjectHandle)
    ensures
        handles_for(expired, m).contains(h) <==> exists|k: int| 0 <= k < expired.len() && #[trigger] expired[k] == (m, h),
    decreases expired.len(),
{
    if expired.len() > 0 {
        let e0 = expired.drop_last();
        lemma_handles_for_contains(e0, m, h);
        let hs0 = handles_for(e0, m);
        if exists|k: int| 0 <= k < expired.len() && #[trigger] expired[k] == (m, h) {
            let k = choose|k: int| 0 <= k < expired.len() && #[trigger] expired[k] == (m, h);
            if k < e0.len() {
                assert(e0[k] == (m, h));
                if expired.last().0 == m {
                    let i = choose|i: int| 0 <= i < hs0.len() && hs0[i] == h;
                    assert(handles_for(expired, m)[i] == h);
                }
            } else {
                assert(handles_for(expired, m) == hs0.push(h));
                assert(handles_for(expired, m)[hs0.len() as int] == h);
            }
        }
        if handles_for(expired, m).contains(h) {
            let i = choose|i: int| 0 <= i < handles_for(expired, m).len() && handles_for(expired, m)[i] == h;
            if expired.last().0 == m && i == hs0.len() {
                assert(expired[expired.len() - 1] == (m, h));
            } else {
                assert(hs0[i] == h);
                let k = choose|k: int| 0 <= k < e0.len() && #[trigger] e0[k] == (m, h);
                assert(expired[k] == (m, h));
            }
        }
    }
}

/// Each pool is updated with its own expired handles only: an active object of the
/// pool of mesh type `t` is released by `update_all_pools` when `expired` lists its
/// handle under `t`, and, if it was not despawned, survives unchanged when `expired`
/// does not (a handle listed under another mesh type names another pool's object).
pub proof fn law_each_pool_updated_with_its_own_handles<P: Default + Clone, R>(
    m0: MeshPoolManager<P, R>,
    m1: MeshPoolManager<P, R>,
    expired: Seq<(MeshType, DynamicObjectHandle)>,
    i: int,
    h: DynamicObjectHandle,
)
    requires
        m0.wf(),
        MeshPoolManager::update_all_post(m0, m1, expired),
        0 <= i < m0.entries().len(),
        m0.entries()[i].1.active_seq().contains(h),
    ensures
        (exists|k: int| 0 <= k < expired.len() && #[trigger] expired[k] == (m0.entries()[i].0, h)) ==> {
            &&& !m1.entries()[i].1.active_seq().contains(h)
            &&& !m1.entries()[i].1.pool().handle_valid(h)
        },
        (!(exists|k: int| 0 <= k < expired.len() && #[trigger] expired[k] == (m0.entries()[i].0, h))
            && m0.entries()[i].1.object_of(h).state == ResourceState::Active) ==> {
            &&& m1.entries()[i].1.active_seq().contains(h)
            &&& m1.entries()[i].1.pool().handle_valid(h)
            &&& m1.entries()[i].1.object_of(h) == m0.entries()[i].1.object_of(h)
        },
{
    m0.lemma_wf();
    let t = m0.entries()[i].0;
    assert(m1.entries()[i].0 == t);
    let hs = handles_for(expired, t);
    lemma_handles_for_contains(expired, t, h);
    if hs.contains(h) {
        crate::object_manager::law_expired_object_released_on_update(m0.entries()[i].1, m1.entries()[i].1, h, hs);
    } else if m0.entries()[i].1.object_of(h).state == ResourceState::Active {
        crate::object_manager::law_live_object_kept_on_update(m0.entries()[i].1, m1.entries()[i].1, h, hs);
    }
}

} // verus!
