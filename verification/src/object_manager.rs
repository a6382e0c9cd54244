//! Lifecycle of pooled dynamic objects: spawn, despawn, per-frame cleanup.
//!
//! The manager owns an [`ObjectPool`] of render data and the list of handles that are
//! alive this frame.  Despawning only marks an object; the next `update` releases
//! every marked or expired object and drops its handle from the active list.
//! Whether an object's lifetime has run out depends on the clock, so `update` takes
//! the handles the caller found expired.

use vstd::prelude::*;
use vstd::string::StringExecFns;

use crate::handles::DynamicObjectHandle;
use crate::text::{append_decimal, decimal};
use crate::object_pool::{ObjectPool, ascending_indices, next_generation, lemma_distinct_indices_len};

verus! {

/// State of a slot in the object pool.
#[derive(Debug, Clone, Copy, PartialEq, Eq, Structural)]
pub enum ResourceState {
    /// Available for allocation
    Available,
    /// Currently assigned to an active object
    Active,
    /// Marked for cleanup at the next update
    PendingCleanup,
}

/// Render data kept for one pooled object: the caller's payload (transform,
/// material, timing) plus the pool bookkeeping.
#[derive(Debug, Clone)]
pub struct DynamicRenderData<P> {
    /// Object payload supplied at spawn time
    pub data: P,
    /// Generation of the slot when the object was spawned
    pub generation: u32,
    /// Lifecycle state
    pub state: ResourceState,
}

impl<P: Default> Default for DynamicRenderData<P> {
    fn default() -> (r: Self)
        ensures
            r.generation == 0,
            r.state == ResourceState::Available,
            call_ensures(P::default, (), r.data),
    {
        DynamicRenderData { data: P::default(), generation: 0, state: ResourceState::Available }
    }
}

/// Errors of dynamic object management.
#[derive(Debug)]
pub enum DynamicObjectError {
    /// Object pool has no available slots
    PoolExhausted { requested: usize, available: usize },
    /// Handle is invalid (wrong generation or index)
    InvalidHandle { handle: DynamicObjectHandle, reason: String },
    /// Vulkan operation failed
    VulkanError(String),
    /// Resource creation failed
    ResourceCreationFailed(String),
}

impl DynamicObjectError {
    /// The text of the error, as it is displayed.
    pub open spec fn spec_message(&self) -> Seq<char> {
        match self {
            DynamicObjectError::PoolExhausted { requested, available } => "Pool exhausted: requested "@
                + decimal(*requested as nat) + ", available "@ + decimal(*available as nat),
            DynamicObjectError::InvalidHandle { handle, reason } => "Invalid handle "@
                + handle.spec_debug_text() + ": "@ + reason@,
            DynamicObjectError::VulkanError(e) => "Vulkan error: "@ + e@,
            DynamicObjectError::ResourceCreationFailed(msg) => "Resource creation failed: "@ + msg@,
        }
    }

    /// The text of the error, as it is displayed.
    pub fn message(&self) -> (s: String)
        ensures
            s@ == self.spec_message(),
    {
        match self {
            DynamicObjectError::PoolExhausted { requested, available } => {
                let mut s = String::from_str("Pool exhausted: requested ");
                append_decimal(&mut s, *requested as u64);
                s.append(", available ");
                append_decimal(&mut s, *available as u64);
                s
            },
            DynamicObjectError::InvalidHandle { handle, reason } => {
                let mut s = String::from_str("Invalid handle ");
                let h = handle.debug_text();
                s.append(h.as_str());
                s.append(": ");
                s.append(reason.as_str());
                s
            },
            DynamicObjectError::VulkanError(e) => {
                let mut s = String::from_str("Vulkan error: ");
                s.append(e.as_str());
                s
            },
            DynamicObjectError::ResourceCreationFailed(msg) => {
                let mut s = String::from_str("Resource creation failed: ");
                s.append(msg.as_str());
                s
            },
        }
    }
}

/// Counters kept by the manager.
#[derive(Debug, Clone, Copy, PartialEq, Eq, Structural)]
pub struct DynamicObjectStats {
    /// Total objects spawned
    pub total_spawned: u64,
    /// Total objects released
    pub total_despawned: u64,
    /// Number of handles on the active list
    pub current_active: usize,
    /// Largest value `current_active` has had
    pub peak_active: usize,
    /// Number of spawns refused because the pool was full
    pub pool_exhaustions: u64,
}

/// Manager of pooled dynamic objects carrying payloads of type `P`.
pub struct DynamicObjectManager<P> {
    object_pool: ObjectPool<DynamicRenderData<P>>,
    active_objects: Vec<DynamicObjectHandle>,
    max_instances: usize,
    stats: DynamicObjectStats,
}

/// Whether some handle in `hs` has index `i`.
pub open spec fn has_index(hs: Seq<DynamicObjectHandle>, i: int) -> bool {
    exists|k: int| 0 <= k < hs.len() && hs[k].index as int == i
}

/// The pool indices of a sequence of handles.
pub open spec fn handle_indices(hs: Seq<DynamicObjectHandle>) -> Seq<usize> {
    hs.map_values(|h: DynamicObjectHandle| h.index as usize)
}

/// Whether `update` releases the object a handle refers to: the caller reported it
/// expired, or it was marked by `despawn_object`.
pub open spec fn should_clean<P>(
    objects: Seq<DynamicRenderData<P>>,
    expired: Seq<DynamicObjectHandle>,
    h: DynamicObjectHandle,
) -> bool {
    expired.contains(h) || objects[h.index as int].state == ResourceState::PendingCleanup
}

/// The handles of `hs` that `update` releases, in order.
pub open spec fn clean_list<P>(
    hs: Seq<DynamicObjectHandle>,
    objects: Seq<DynamicRenderData<P>>,
    expired: Seq<DynamicObjectHandle>,
) -> Seq<DynamicObjectHandle>
    decreases hs.len(),
{
    if hs.len() == 0 {
        Seq::empty()
    } else {
        let rest = clean_list(hs.drop_last(), objects, expired);
        if should_clean(objects, expired, hs.last()) {
            rest.push(hs.last())
        } else {
            rest
        }
    }
}

/// The handles of `hs` that `update` keeps, in order.
pub open spec fn keep_list<P>(
    hs: Seq<DynamicObjectHandle>,
    objects: Seq<DynamicRenderData<P>>,
    expired: Seq<DynamicObjectHandle>,
) -> Seq<DynamicObjectHandle>
    decreases hs.len(),
{
    if hs.len() == 0 {
        Seq::empty()
    } else {
        let rest = keep_list(hs.drop_last(), objects, expired);
        if should_clean(objects, expired, hs.last()) {
            rest
        } else {
            rest.push(hs.last())
        }
    }
}

/// Every element of `clean_list(hs, ..)` and of `keep_list(hs, ..)` is an element of `hs`,
/// and both lists keep the indices of `hs` distinct when they were.
pub proof fn lemma_lists_subseq<P>(
    hs: Seq<DynamicObjectHandle>,
    objects: Seq<DynamicRenderData<P>>,
    expired: Seq<DynamicObjectHandle>,
)
    ensures
        forall|h: DynamicObjectHandle| #[trigger] clean_list(hs, objects, expired).contains(h) ==> hs.contains(h) && should_clean(objects, expired, h),
        forall|h: DynamicObjectHandle| #[trigger] keep_list(hs, objects, expired).contains(h) ==> hs.contains(h) && !should_clean(objects, expired, h),
        handle_indices(hs).no_duplicates() ==> handle_indices(clean_list(hs, objects, expired)).no_duplicates(),
        handle_indices(hs).no_duplicates() ==> handle_indices(keep_list(hs, objects, expired)).no_duplicates(),
        clean_list(hs, objects, expired).len() <= hs.len(),
        keep_list(hs, objects, expired).len() <= hs.len(),
    decreases hs.len(),
{
    if hs.len() > 0 {
        let rest = hs.drop_last();
        lemma_lists_subseq(rest, objects, expired);
        let c0 = clean_list(rest, objects, expired);
        let k0 = keep_list(rest, objects, expired);
        assert forall|h: DynamicObjectHandle| rest.contains(h) implies hs.contains(h) by {
            let i = choose|i: int| 0 <= i < rest.len() && rest[i] == h;
            assert(hs[i] == h);
        }
        assert(hs.contains(hs.last())) by {
            assert(hs[hs.len() - 1] == hs.last());
        }
        if handle_indices(hs).no_duplicates() {
            let hi = handle_indices(hs);
            assert(handle_indices(rest) =~= hi.drop_last());
            assert forall|h: DynamicObjectHandle| rest.contains(h) implies h.index != hs.last().index by {
                let i = choose|i: int| 0 <= i < rest.len() && rest[i] == h;
                assert(hi[i] == h.index as usize);
                assert(hi[hs.len() - 1] == hs.last().index as usize);
            }
            let last = hs.last();
            if should_clean(objects, expired, last) {
                let c = c0.push(last);
                assert(handle_indices(c) =~= handle_indices(c0).push(last.index as usize));
                assert forall|a: int, b: int| 0 <= a < c.len() && 0 <= b < c.len() && a != b implies
                    handle_indices(c)[a] != handle_indices(c)[b] by {
                    if a < c0.len() && b < c0.len() {
                        assert(handle_indices(c)[a] == handle_indices(c0)[a]);
                        assert(handle_indices(c)[b] == handle_indices(c0)[b]);
                    } else if a < c0.len() {
                        assert(c0.contains(c0[a]));
                    } else {
                        assert(c0.contains(c0[b]));
                    }
                }
            } else {
                let k = k0.push(last);
                assert(handle_indices(k) =~= handle_indices(k0).push(last.index as usize));
                assert forall|a: int, b: int| 0 <= a < k.len() && 0 <= b < k.len() && a != b implies
                    handle_indices(k)[a] != handle_indices(k)[b] by {
                    if a < k0.len() && b < k0.len() {
                        assert(handle_indices(k)[a] == handle_indices(k0)[a]);
                        assert(handle_indices(k)[b] == handle_indices(k0)[b]);
                    } else if a < k0.len() {
                        assert(k0.contains(k0[a]));
                    } else {
                        assert(k0.contains(k0[b]));
                    }
                }
            }
        }
        assert forall|h: DynamicObjectHandle| #[trigger] clean_list(hs, objects, expired).contains(h) implies hs.contains(h) && should_clean(objects, expired, h) by {
            if !c0.contains(h) {
                let c = clean_list(hs, objects, expired);
                let i = choose|i: int| 0 <= i < c.len() && c[i] == h;
                assert(c.len() == c0.len() + 1 && i == c0.len()) by {
                    if !(c.len() == c0.len() + 1 && i == c0.len()) {
                        assert(c0[i] == h);
                    }
                }
            }
        }
        assert forall|h: DynamicObjectHandle| #[trigger] keep_list(hs, objects, expired).contains(h) implies hs.contains(h) && !should_clean(objects, expired, h) by {
            if !k0.contains(h) {
                let k = keep_list(hs, objects, expired);
                let i = choose|i: int| 0 <= i < k.len() && k[i] == h;
                assert(k.len() == k0.len() + 1 && i == k0.len()) by {
                    if !(k.len() == k0.len() + 1 && i == k0.len()) {
                        assert(k0[i] == h);
                    }
                }
            }
        }
    }
}

/// An element of `hs` that `update` releases is on `clean_list(hs, ..)`.
pub proof fn lemma_clean_list_complete<P>(
    hs: Seq<DynamicObjectHandle>,
    objects: Seq<DynamicRenderData<P>>,
    expired: Seq<DynamicObjectHandle>,
    k: int,
)
    requires
        0 <= k < hs.len(),
        should_clean(objects, expired, hs[k]),
    ensures
        clean_list(hs, objects, expired).contains(hs[k]),
    decreases hs.len(),
{
    let c = clean_list(hs, objects, expired);
    if k == hs.len() - 1 {
        assert(c[c.len() - 1] == hs[k]);
    } else {
        lemma_clean_list_complete(hs.drop_last(), objects, expired, k);
        let c0 = clean_list(hs.drop_last(), objects, expired);
        let i = choose|i: int| 0 <= i < c0.len() && c0[i] == hs[k];
        assert(c[i] == hs[k]);
    }
}

/// An element of `hs` with distinct indices that `update` does not release shares
/// no index with a released one, and it is on `keep_list(hs, ..)`.
pub proof fn lemma_not_cleaned_index<P>(
    hs: Seq<DynamicObjectHandle>,
    objects: Seq<DynamicRenderData<P>>,
    expired: Seq<DynamicObjectHandle>,
    k: int,
)
    requires
        0 <= k < hs.len(),
        handle_indices(hs).no_duplicates(),
        keep_list(hs, objects, expired).contains(hs[k]) || !should_clean(objects, expired, hs[k]),
    ensures
        !should_clean(objects, expired, hs[k]),
        !has_index(clean_list(hs, objects, expired), hs[k].index as int),
{
    lemma_lists_subseq(hs, objects, expired);
    let c = clean_list(hs, objects, expired);
    if has_index(c, hs[k].index as int) {
        let q = choose|q: int| 0 <= q < c.len() && c[q].index as int == hs[k].index as int;
        assert(c.contains(c[q]));
        let ka = choose|ka: int| 0 <= ka < hs.len() && hs[ka] == c[q];
        assert(handle_indices(hs)[ka] == handle_indices(hs)[k]);
    }
}

impl<P> DynamicObjectManager<P> {
    /// The underlying pool.
    pub closed spec fn pool(&self) -> ObjectPool<DynamicRenderData<P>> {
        self.object_pool
    }

    /// The active handles, in spawn order.
    pub closed spec fn active_seq(&self) -> Seq<DynamicObjectHandle> {
        self.active_objects@
    }

    /// The capacity the manager was created with.
    pub closed spec fn spec_max_instances(&self) -> nat {
        self.max_instances as nat
    }

    /// The statistics.
    pub closed spec fn spec_stats(&self) -> DynamicObjectStats {
        self.stats
    }

    /// The object stored in the slot a handle names.
    pub open spec fn object_of(&self, h: DynamicObjectHandle) -> DynamicRenderData<P> {
        self.pool().object_seq()[h.index as int]
    }

    /// Invariant: the pool is consistent and sized to the capacity, its free list
    /// holds no index twice, every active handle is valid, names a slot that is not
    /// free and whose object is `Active` or `PendingCleanup`, no two active handles
    /// share a slot, and the statistics count the active handles.
    pub closed spec fn wf(&self) -> bool {
        &&& self.object_pool.wf()
        &&& self.object_pool.spec_capacity() == self.max_instances
        &&& self.max_instances <= 0xFFFF_FFFFusize
        &&& self.object_pool.free_list().no_duplicates()
        &&& forall|k: int| 0 <= k < self.active_objects@.len() ==> {
            let h = #[trigger] self.active_objects@[k];
            &&& self.object_pool.handle_valid(h)
            &&& !self.object_pool.free_list().contains(h.index as usize)
            &&& (self.object_pool.object_seq()[h.index as int].state == ResourceState::Active
                || self.object_pool.object_seq()[h.index as int].state == ResourceState::PendingCleanup)
        }
        &&& handle_indices(self.active_objects@).no_duplicates()
        &&& self.stats.current_active == self.active_objects@.len()
    }

    /// What a well-formed manager holds: its pool is well formed with capacity
    /// `max_instances`, every active handle is valid, and the active count matches the
    /// active list.
    pub proof fn lemma_wf(&self)
        requires
            self.wf(),
        ensures
            self.pool().wf(),
            self.pool().spec_capacity() == self.spec_max_instances(),
            self.spec_max_instances() <= 0xFFFF_FFFF,
            self.pool().free_list().no_duplicates(),
            self.pool().free_list().len() <= self.pool().spec_capacity(),
            self.pool().object_seq().len() == self.spec_max_instances(),
            self.pool().generation_seq().len() == self.spec_max_instances(),
            forall|k: int| 0 <= k < self.active_seq().len() ==> #[trigger] self.pool().handle_valid(self.active_seq()[k]),
            self.spec_stats().current_active == self.active_seq().len(),
    {
        self.object_pool.lemma_wf();
        lemma_distinct_indices_len(self.object_pool.free_list(), self.max_instances as nat);
        assert forall|k: int| 0 <= k < self.active_seq().len() implies #[trigger] self.pool().handle_valid(self.active_seq()[k]) by {
            let h = self.active_objects@[k];
        }
    }
}

impl<P: Default + Clone> DynamicObjectManager<P> {

    /// The state change of `despawn_object`: a valid handle's object is marked
    /// `PendingCleanup`; nothing else changes.
    pub open spec fn despawn_post(m0: Self, m1: Self, handle: DynamicObjectHandle) -> bool {
        &&& m1.spec_max_instances() == m0.spec_max_instances()
        &&& m1.active_seq() == m0.active_seq()
        &&& m1.spec_stats() == m0.spec_stats()
        &&& m1.pool().spec_capacity() == m0.pool().spec_capacity()
        &&& m1.pool().free_list() == m0.pool().free_list()
        &&& m1.pool().generation_seq() == m0.pool().generation_seq()
        &&& m1.pool().object_seq() == if m0.pool().handle_valid(handle) {
            m0.pool().object_seq().update(
                handle.index as int,
                DynamicRenderData { state: ResourceState::PendingCleanup, ..m0.object_of(handle) },
            )
        } else {
            m0.pool().object_seq()
        }
    }


    /// The state change of `update`: the active handles that `expired` lists or whose
    /// object is `PendingCleanup` are released (their slot goes to the back of the free
    /// list, its generation is bumped and its object reset), the others stay active,
    /// and the release count is added to the statistics.
    pub open spec fn update_post(m0: Self, m1: Self, expired: Seq<DynamicObjectHandle>) -> bool {
        let objects = m0.pool().object_seq();
        let cleaned = clean_list(m0.active_seq(), objects, expired);
        &&& m1.spec_max_instances() == m0.spec_max_instances()
        &&& m1.pool().spec_capacity() == m0.pool().spec_capacity()
        &&& m1.active_seq() == keep_list(m0.active_seq(), objects, expired)
        &&& m1.pool().free_list() == m0.pool().free_list() + handle_indices(cleaned)
        &&& forall|i: int| 0 <= i < m0.spec_max_instances() ==>
            #[trigger] m1.pool().generation_seq()[i] == if has_index(cleaned, i) {
                next_generation(m0.pool().generation_seq()[i])
            } else {
                m0.pool().generation_seq()[i]
            }
                &&& forall|i: int| 0 <= i < m0.spec_max_instances() && !has_index(cleaned, i) ==>
                    #[trigger] m1.pool().object_seq()[i] == objects[i]
                &&& forall|i: int| 0 <= i < m0.spec_max_instances() && has_index(cleaned, i) ==>
                    call_ensures(DynamicRenderData::<P>::default, (), #[trigger] m1.pool().object_seq()[i])
                &&& m1.spec_stats() == (DynamicObjectStats {
                    total_despawned: (m0.spec_stats().total_despawned + cleaned.len()) as u64,
                    current_active: m1.active_seq().len() as usize,
                    ..m0.spec_stats()
                })
    }

    /// The handle `spawn_object` hands out when a slot is free: the front of the free
    /// list with its current generation.
    pub open spec fn next_spawn_handle(m0: Self) -> DynamicObjectHandle {
        let index = m0.pool().free_list()[0];
        DynamicObjectHandle { index: index as u32, generation: m0.pool().generation_seq()[index as int] }
    }

    /// The result of `spawn_object`: `PoolExhausted` on a full pool, else the next handle.
    pub open spec fn spawn_result(m0: Self) -> Result<DynamicObjectHandle, DynamicObjectError> {
        if m0.pool().free_list().len() == 0 {
            Err(DynamicObjectError::PoolExhausted { requested: 1, available: 0 })
        } else {
            Ok(Self::next_spawn_handle(m0))
        }
    }

    /// The state change of `spawn_object`.  On a full pool only the exhaustion counter
    /// moves; otherwise the front free slot is taken, holds `params` as an `Active`
    /// object, its handle is appended to the active list and the counters follow.
    pub open spec fn spawn_post(m0: Self, m1: Self, params: P) -> bool {
        &&& m1.spec_max_instances() == m0.spec_max_instances()
        &&& m0.pool().free_list().len() == 0 ==> {
            &&& m1.pool().object_seq() == m0.pool().object_seq()
            &&& m1.pool().free_list() == m0.pool().free_list()
            &&& m1.pool().generation_seq() == m0.pool().generation_seq()
            &&& m1.active_seq() == m0.active_seq()
            &&& m1.spec_stats() == (DynamicObjectStats {
                pool_exhaustions: (m0.spec_stats().pool_exhaustions + 1) as u64,
                ..m0.spec_stats()
            })
        }
        &&& m0.pool().free_list().len() > 0 ==> {
            let h = Self::next_spawn_handle(m0);
            let index = m0.pool().free_list()[0];
            &&& (h.index as usize) == index
            &&& m1.active_seq() == m0.active_seq().push(h)
            &&& m1.pool().free_list() == m0.pool().free_list().subrange(1, m0.pool().free_list().len() as int)
            &&& m1.pool().generation_seq() == m0.pool().generation_seq()
            &&& m1.pool().object_seq() == m0.pool().object_seq().update(
                index as int,
                DynamicRenderData { data: params, generation: h.generation, state: ResourceState::Active },
            )
            &&& m1.spec_stats().total_spawned == m0.spec_stats().total_spawned + 1
            &&& m1.spec_stats().total_despawned == m0.spec_stats().total_despawned
            &&& m1.spec_stats().pool_exhaustions == m0.spec_stats().pool_exhaustions
            &&& m1.spec_stats().current_active == m1.active_seq().len()
            &&& m1.spec_stats().peak_active == (if m1.active_seq().len() > m0.spec_stats().peak_active {
                m1.active_seq().len()
            } else {
                m0.spec_stats().peak_active as nat
            })
        }
    }

    /// Create a manager with `max_instances` free slots, all at generation 0 and handed
    /// out in increasing index order, and no active object.
    pub fn new(max_instances: usize) -> (m: Self)
        requires
            max_instances <= 0xFFFF_FFFFusize,
        ensures
            m.wf(),
            m.spec_max_instances() == max_instances,
            m.active_seq().len() == 0,
            m.pool().free_list().len() == max_instances,
            m.pool().free_list() == ascending_indices(max_instances as nat),
            forall|i: int| 0 <= i < max_instances ==> #[trigger] m.pool().generation_seq()[i] == 0,
            m.spec_stats() == (DynamicObjectStats {
                total_spawned: 0,
                total_despawned: 0,
                current_active: 0,
                peak_active: 0,
                pool_exhaustions: 0,
            }),
    {
        let object_pool = ObjectPool::new(max_instances);
        let m = DynamicObjectManager {
            object_pool,
            active_objects: Vec::with_capacity(max_instances),
            max_instances,
            stats: DynamicObjectStats {
                total_spawned: 0,
                total_despawned: 0,
                current_active: 0,
                peak_active: 0,
                pool_exhaustions: 0,
            },
        };
        assert(m.object_pool.free_list().no_duplicates());
        m
    }

    /// Spawn an object: take the first free slot, store `params` there as an `Active`
    /// object and append its handle to the active list.  Fails with `PoolExhausted`
    /// when no slot is free.
    pub fn spawn_object(&mut self, params: P) -> (r: Result<DynamicObjectHandle, DynamicObjectError>)
        requires
            old(self).wf(),
            old(self).pool().free_list().len() > 0 ==> old(self).spec_stats().total_spawned < u64::MAX,
            old(self).pool().free_list().len() == 0 ==> old(self).spec_stats().pool_exhaustions < u64::MAX,
        ensures
            final(self).wf(),
            r == Self::spawn_result(*old(self)),
            Self::spawn_post(*old(self), *final(self), params),
    {
        proof {
            self.lemma_wf();
        }
        let ghost old_free = self.object_pool.free_list();
        if let Some((index, generation)) = self.object_pool.allocate() {
            assert(index < self.max_instances) by {
                old(self).object_pool.lemma_wf();
                assert(old(self).object_pool.free_list()[0] < old(self).object_pool.spec_capacity());
            }
            if let Some(object) = self.object_pool.get_mut(index) {
                object.data = params;
                object.generation = generation;
                object.state = ResourceState::Active;
            }
            let handle = DynamicObjectHandle::new(index as u32, generation);
            let ghost old_active = self.active_objects@;
            self.active_objects.push(handle);
            self.stats.total_spawned = self.stats.total_spawned + 1;
            self.stats.current_active = self.active_objects.len();
            if self.stats.current_active > self.stats.peak_active {
                self.stats.peak_active = self.stats.current_active;
            }
            proof {
                self.object_pool.lemma_wf();
                old(self).object_pool.lemma_wf();
                let free = self.object_pool.free_list();
                assert(free =~= old_free.subrange(1, old_free.len() as int));
                assert(!free.contains(index)) by {
                    if free.contains(index) {
                        let j = choose|j: int| 0 <= j < free.len() && free[j] == index;
                        assert(old_free[j + 1] == old_free[0]);
                    }
                }
                assert forall|k: int| 0 <= k < self.active_objects@.len() implies {
                    let h = #[trigger] self.active_objects@[k];
                    &&& self.object_pool.handle_valid(h)
                    &&& !self.object_pool.free_list().contains(h.index as usize)
                    &&& (self.object_pool.object_seq()[h.index as int].state == ResourceState::Active
                        || self.object_pool.object_seq()[h.index as int].state == ResourceState::PendingCleanup)
                } by {
                    let h = self.active_objects@[k];
                    if k < old_active.len() {
                        assert(h == old_active[k]);
                        assert(old(self).active_objects@[k] == h);
                        assert(!old_free.contains(h.index as usize));
                        assert(h.index as usize != index);
                        if free.contains(h.index as usize) {
                            let j = choose|j: int| 0 <= j < free.len() && free[j] == h.index as usize;
                            assert(old_free[j + 1] == h.index as usize);
                        }
                        assert(self.object_pool.object_seq()[h.index as int] == old(self).object_pool.object_seq()[h.index as int]);
                    } else {
                        assert(h == handle);
                        assert(h.index as usize == index);
                    }
                }
                let hi = handle_indices(self.active_objects@);
                let ohi = handle_indices(old_active);
                assert(hi =~= ohi.push(index));
                assert forall|a: int, b: int| 0 <= a < hi.len() && 0 <= b < hi.len() && a != b implies hi[a] != hi[b] by {
                    if a < ohi.len() && b < ohi.len() {
                    } else if a < ohi.len() {
                        assert(old(self).active_objects@[a].index as usize == hi[a]);
                        assert(!old_free.contains(hi[a]));
                    } else {
                        assert(old(self).active_objects@[b].index as usize == hi[b]);
                        assert(!old_free.contains(hi[b]));
                    }
                }
            }
            Ok(handle)
        } else {
            self.stats.pool_exhaustions = self.stats.pool_exhaustions + 1;
            let available = self.object_pool.available_count();
            Err(DynamicObjectError::PoolExhausted { requested: 1, available })
        }
    }

    /// Mark the object a handle refers to for release at the next `update`.  Fails with
    /// `InvalidHandle` when the handle is stale or out of range.
    pub fn despawn_object(&mut self, handle: DynamicObjectHandle) -> (r: Result<(), DynamicObjectError>)
        requires
            old(self).wf(),
        ensures
            final(self).wf(),
            Self::despawn_post(*old(self), *final(self), handle),
            !old(self).pool().handle_valid(handle) ==> (r matches Err(DynamicObjectError::InvalidHandle { handle: h, reason })
                && h == handle && reason@ == "Handle generation mismatch or invalid index"@),
            old(self).pool().handle_valid(handle) ==> r is Ok,
    {
        if !self.object_pool.is_handle_valid(handle) {
            return Err(DynamicObjectError::InvalidHandle {
                handle,
                reason: String::from_str("Handle generation mismatch or invalid index"),
            });
        }
        if let Some(object) = self.object_pool.get_mut_with_handle(handle) {
            object.state = ResourceState::PendingCleanup;
        }
        proof {
            old(self).object_pool.lemma_wf();
            self.object_pool.lemma_wf();
            assert forall|k: int| 0 <= k < self.active_objects@.len() implies {
                let h = #[trigger] self.active_objects@[k];
                &&& self.object_pool.handle_valid(h)
                &&& !self.object_pool.free_list().contains(h.index as usize)
                &&& (self.object_pool.object_seq()[h.index as int].state == ResourceState::Active
                    || self.object_pool.object_seq()[h.index as int].state == ResourceState::PendingCleanup)
            } by {
                let h = self.active_objects@[k];
                assert(old(self).active_objects@[k] == h);
            }
        }
        Ok(())
    }

    /// Replace the payload of the object a handle refers to.  Fails with
    /// `InvalidHandle` when the handle is stale or out of range.
    pub fn update_object_data(&mut self, handle: DynamicObjectHandle, data: P) -> (r: Result<(), DynamicObjectError>)
        requires
            old(self).wf(),
        ensures
            final(self).wf(),
            final(self).spec_max_instances() == old(self).spec_max_instances(),
            final(self).active_seq() == old(self).active_seq(),
            final(self).spec_stats() == old(self).spec_stats(),
            final(self).pool().free_list() == old(self).pool().free_list(),
            final(self).pool().generation_seq() == old(self).pool().generation_seq(),
            !old(self).pool().handle_valid(handle) ==> {
                &&& r matches Err(DynamicObjectError::InvalidHandle { handle: h, reason })
                    && h == handle && reason@ == "Object not found or generation mismatch"@
                &&& final(self).pool() == old(self).pool()
            },
            old(self).pool().handle_valid(handle) ==> {
                &&& r is Ok
                &&& final(self).pool().object_seq() == old(self).pool().object_seq().update(
                    handle.index as int,
                    DynamicRenderData { data, ..old(self).object_of(handle) },
                )
            },
    {
        if let Some(object) = self.object_pool.get_mut_with_handle(handle) {
            object.data = data;
            proof {
                old(self).object_pool.lemma_wf();
                self.object_pool.lemma_wf();
                assert forall|k: int| 0 <= k < self.active_objects@.len() implies {
                    let h = #[trigger] self.active_objects@[k];
                    &&& self.object_pool.handle_valid(h)
                    &&& !self.object_pool.free_list().contains(h.index as usize)
                    &&& (self.object_pool.object_seq()[h.index as int].state == ResourceState::Active
                        || self.object_pool.object_seq()[h.index as int].state == ResourceState::PendingCleanup)
                } by {
                    let h = self.active_objects@[k];
                    assert(old(self).active_objects@[k] == h);
                }
            }
            Ok(())
        } else {
            Err(DynamicObjectError::InvalidHandle {
                handle,
                reason: String::from_str("Object not found or generation mismatch"),
            })
        }
    }

    /// The render data of the object a handle refers to.  Fails with `InvalidHandle`
    /// when the handle is stale or out of range.
    pub fn get_object(&self, handle: DynamicObjectHandle) -> (r: Result<&DynamicRenderData<P>, DynamicObjectError>)
        requires
            self.wf(),
        ensures
            self.pool().handle_valid(handle) ==> r == Ok::<&DynamicRenderData<P>, DynamicObjectError>(&self.object_of(handle)),
            !self.pool().handle_valid(handle) ==> (r matches Err(DynamicObjectError::InvalidHandle { handle: h, reason })
                && h == handle && reason@ == "Object not found or generation mismatch"@),
    {
        if let Some(object) = self.object_pool.get_with_handle(handle) {
            Ok(object)
        } else {
            Err(DynamicObjectError::InvalidHandle {
                handle,
                reason: String::from_str("Object not found or generation mismatch"),
            })
        }
    }


    /// Whether `h` occurs in `expired`.
    fn handle_listed(expired: &[DynamicObjectHandle], h: DynamicObjectHandle) -> (b: bool)
        ensures
            b == expired@.contains(h),
    {
        let mut i: usize = 0;
        while i < expired.len()
            invariant
                i <= expired@.len(),
                forall|j: int| 0 <= j < i ==> expired@[j] != h,
            decreases expired@.len() - i,
        {
            if expired[i] == h {
                assert(expired@[i as int] == h);
                return true;
            }
            i = i + 1;
        }
        false
    }

    /// Release the object of an active handle: deallocate its slot and count it.
    fn cleanup_object(&mut self, handle: DynamicObjectHandle)
        requires
            old(self).object_pool.wf(),
            old(self).stats.total_despawned < u64::MAX,
            old(self).object_pool.handle_valid(handle) ==> !old(self).object_pool.is_free(handle.index as usize),
        ensures
            final(self).active_objects == old(self).active_objects,
            final(self).max_instances == old(self).max_instances,
            final(self).object_pool.wf(),
            final(self).object_pool.spec_capacity() == old(self).object_pool.spec_capacity(),
            !old(self).object_pool.handle_valid(handle) ==> {
                &&& final(self).object_pool == old(self).object_pool
                &&& final(self).stats == old(self).stats
            },
            old(self).object_pool.handle_valid(handle) ==> {
                let index = handle.index as int;
                &&& final(self).object_pool.generation_seq() == old(self).object_pool.generation_seq().update(
                    index,
                    next_generation(old(self).object_pool.generation_seq()[index]),
                )
                &&& final(self).object_pool.free_list() == old(self).object_pool.free_list().push(handle.index as usize)
                &&& final(self).object_pool.object_seq().len() == old(self).object_pool.object_seq().len()
                &&& forall|i: int| 0 <= i < old(self).object_pool.object_seq().len() && i != index ==>
                    #[trigger] final(self).object_pool.object_seq()[i] == old(self).object_pool.object_seq()[i]
                &&& call_ensures(DynamicRenderData::<P>::default, (), final(self).object_pool.object_seq()[index])
                &&& final(self).stats == (DynamicObjectStats {
                    total_despawned: (old(self).stats.total_despawned + 1) as u64,
                    ..old(self).stats
                })
            },
    {
        if self.object_pool.is_handle_valid(handle) {
            self.object_pool.deallocate(handle.index as usize);
            self.stats.total_despawned = self.stats.total_despawned + 1;
        }
    }

    /// Per-frame maintenance: release every active object that `expired` lists or that
    /// was marked by `despawn_object`, then keep on the active list only the handles
    /// whose object is still valid and `Active`.
    pub fn update(&mut self, expired: &[DynamicObjectHandle])
        requires
            old(self).wf(),
            old(self).spec_stats().total_despawned + old(self).active_seq().len() <= u64::MAX,
        ensures
            final(self).wf(),
            final(self).spec_max_instances() == old(self).spec_max_instances(),
            Self::update_post(*old(self), *final(self), expired@),
    {
        proof {
            self.lemma_wf();
            self.object_pool.lemma_wf();
        }
        let ghost objects0 = self.object_pool.object_seq();
        let ghost active0 = self.active_objects@;
        let ghost free0 = self.object_pool.free_list();
        let ghost gens0 = self.object_pool.generation_seq();
        let ghost stats0 = self.stats;
        // Collect the handles to release.
        let mut objects_to_cleanup: Vec<DynamicObjectHandle> = Vec::new();
        let mut k: usize = 0;
        while k < self.active_objects.len()
            invariant
                self.object_pool == old(self).object_pool,
                self.active_objects@ == active0,
                self.object_pool.wf(),
                old(self).wf(),
                active0 == old(self).active_seq(),
                objects0 == old(self).pool().object_seq(),
                k <= active0.len(),
                objects_to_cleanup@ == clean_list(active0.take(k as int), objects0, expired@),
            decreases active0.len() - k,
        {
            let handle = self.active_objects[k];
            assert(active0.take(k + 1).drop_last() =~= active0.take(k as int));
            assert(self.object_pool.handle_valid(handle)) by {
                self.lemma_wf();
            }
            if let Some(object) = self.object_pool.get_with_handle(handle) {
                if Self::handle_listed(expired, handle) || object.state == ResourceState::PendingCleanup {
                    objects_to_cleanup.push(handle);
                }
            }
            k = k + 1;
        }
        assert(active0.take(active0.len() as int) =~= active0);
        let ghost cleaned = objects_to_cleanup@;
        proof {
            lemma_lists_subseq(active0, objects0, expired@);
        }
        // Release them.
        let mut j: usize = 0;
        while j < objects_to_cleanup.len()
            invariant
                j <= cleaned.len(),
                objects_to_cleanup@ == cleaned,
                cleaned == clean_list(active0, objects0, expired@),
                handle_indices(cleaned).no_duplicates(),
                forall|h: DynamicObjectHandle| #[trigger] cleaned.contains(h) ==> active0.contains(h),
                cleaned.len() <= active0.len(),
                stats0.total_despawned + active0.len() <= u64::MAX,
                self.active_objects@ == active0,
                self.max_instances == old(self).max_instances,
                old(self).wf(),
                active0 == old(self).active_seq(),
                objects0 == old(self).pool().object_seq(),
                free0 == old(self).pool().free_list(),
                gens0 == old(self).pool().generation_seq(),
                stats0 == old(self).spec_stats(),
                self.object_pool.wf(),
                self.object_pool.spec_capacity() == self.max_instances,
                self.object_pool.free_list() == free0 + handle_indices(cleaned.take(j as int)),
                forall|i: int| 0 <= i < self.max_instances ==>
                    #[trigger] self.object_pool.generation_seq()[i] == if has_index(cleaned.take(j as int), i) {
                        next_generation(gens0[i])
                    } else {
                        gens0[i]
                    },
                forall|i: int| 0 <= i < self.max_instances && !has_index(cleaned.take(j as int), i) ==>
                    #[trigger] self.object_pool.object_seq()[i] == objects0[i],
                forall|i: int| 0 <= i < self.max_instances && has_index(cleaned.take(j as int), i) ==>
                    call_ensures(DynamicRenderData::<P>::default, (), #[trigger] self.object_pool.object_seq()[i]),
                self.stats == (DynamicObjectStats { total_despawned: (stats0.total_despawned + j) as u64, ..stats0 }),
            decreases cleaned.len() - j,
        {
            let handle = objects_to_cleanup[j];
            proof {
                old(self).lemma_wf();
                self.object_pool.lemma_wf();
                assert(active0.contains(handle)) by {
                    assert(cleaned.contains(cleaned[j as int]));
                }
                let ka = choose|ka: int| 0 <= ka < active0.len() && active0[ka] == handle;
                assert(old(self).active_objects@[ka] == handle);
                let hi = handle_indices(cleaned);
                assert(!has_index(cleaned.take(j as int), handle.index as int)) by {
                    if has_index(cleaned.take(j as int), handle.index as int) {
                        let q = choose|q: int| 0 <= q < j && cleaned.take(j as int)[q].index as int == handle.index as int;
                        assert(hi[q] == hi[j as int]);
                    }
                }
                assert(self.object_pool.handle_valid(handle));
                assert(!free0.contains(handle.index as usize));
                assert(!self.object_pool.is_free(handle.index as usize)) by {
                    let fl = self.object_pool.free_list();
                    let t = handle_indices(cleaned.take(j as int));
                    if fl.contains(handle.index as usize) {
                        let q = choose|q: int| 0 <= q < fl.len() && fl[q] == handle.index as usize;
                        if q < free0.len() {
                            assert(free0[q] == handle.index as usize);
                        } else {
                            assert(t[q - free0.len()] == handle.index as usize);
                            assert(cleaned.take(j as int)[q - free0.len()].index as int == handle.index as int);
                        }
                    }
                }
            }
            self.cleanup_object(handle);
            proof {
                let t0 = cleaned.take(j as int);
                let t1 = cleaned.take(j + 1);
                assert(t1 =~= t0.push(handle));
                assert(handle_indices(t1) =~= handle_indices(t0).push(handle.index as usize));
                assert forall|i: int| has_index(t1, i) <==> (has_index(t0, i) || i == handle.index as int) by {
                    if has_index(t1, i) {
                        let q = choose|q: int| 0 <= q < t1.len() && t1[q].index as int == i;
                        if q < t0.len() {
                            assert(t0[q] == t1[q]);
                        }
                    }
                    if has_index(t0, i) {
                        let q = choose|q: int| 0 <= q < t0.len() && t0[q].index as int == i;
                        assert(t1[q] == t0[q]);
                    }
                    if i == handle.index as int {
                        assert(t1[j as int] == handle);
                    }
                }
                assert(self.object_pool.free_list() =~= free0 + handle_indices(t1));
            }
            j = j + 1;
        }
        assert(cleaned.take(cleaned.len() as int) =~= cleaned);
        // Keep the handles whose object is still valid and active.
        let mut kept: Vec<DynamicObjectHandle> = Vec::new();
        let mut k: usize = 0;
        while k < self.active_objects.len()
            invariant
                self.active_objects@ == active0,
                k <= active0.len(),
                kept@ == keep_list(active0.take(k as int), objects0, expired@),
                cleaned == clean_list(active0, objects0, expired@),
                forall|h: DynamicObjectHandle| #[trigger] cleaned.contains(h) ==> active0.contains(h) && should_clean(objects0, expired@, h),
                handle_indices(cleaned).no_duplicates(),
                old(self).wf(),
                active0 == old(self).active_seq(),
                objects0 == old(self).pool().object_seq(),
                gens0 == old(self).pool().generation_seq(),
                self.object_pool.wf(),
                self.object_pool.spec_capacity() == self.max_instances,
                self.max_instances == old(self).max_instances,
                forall|i: int| 0 <= i < self.max_instances ==>
                    #[trigger] self.object_pool.generation_seq()[i] == if has_index(cleaned, i) {
                        next_generation(gens0[i])
                    } else {
                        gens0[i]
                    },
                forall|i: int| 0 <= i < self.max_instances && !has_index(cleaned, i) ==>
                    #[trigger] self.object_pool.object_seq()[i] == objects0[i],
            decreases active0.len() - k,
        {
            let handle = self.active_objects[k];
            proof {
                old(self).lemma_wf();
                self.object_pool.lemma_wf();
                assert(active0.take(k + 1).drop_last() =~= active0.take(k as int));
                assert(old(self).active_objects@[k as int] == handle);
                let idx = handle.index as int;
                if has_index(cleaned, idx) {
                    let q = choose|q: int| 0 <= q < cleaned.len() && cleaned[q].index as int == idx;
                    assert(cleaned.contains(cleaned[q]));
                    let ka = choose|ka: int| 0 <= ka < active0.len() && active0[ka] == cleaned[q];
                    assert(handle_indices(active0)[ka] == active0[ka].index as usize);
                    assert(handle_indices(active0)[k as int] == active0[k as int].index as usize);
                    assert(ka == k);
                    assert(should_clean(objects0, expired@, handle));
                    assert(self.object_pool.generation_seq()[idx] != gens0[idx]);
                } else {
                    if should_clean(objects0, expired@, handle) {
                        assert(clean_list(active0, objects0, expired@).contains(handle)) by {
                            lemma_clean_list_complete(active0, objects0, expired@, k as int);
                        }
                        assert(cleaned[cleaned.index_of(handle)].index as int == idx);
                    }
                }
            }
            let keep = match self.object_pool.get_with_handle(handle) {
                Some(object) => object.state == ResourceState::Active,
                None => false,
            };
            if keep {
                kept.push(handle);
            }
            k = k + 1;
        }
        assert(active0.take(active0.len() as int) =~= active0);
        self.active_objects = kept;
        self.stats.current_active = self.active_objects.len();
        proof {
            lemma_lists_subseq(active0, objects0, expired@);
            old(self).lemma_wf();
            self.object_pool.lemma_wf();
            let kept_s = self.active_objects@;
            assert forall|q: int| 0 <= q < kept_s.len() implies {
                let h = #[trigger] kept_s[q];
                &&& self.object_pool.handle_valid(h)
                &&& !self.object_pool.free_list().contains(h.index as usize)
                &&& (self.object_pool.object_seq()[h.index as int].state == ResourceState::Active
                    || self.object_pool.object_seq()[h.index as int].state == ResourceState::PendingCleanup)
            } by {
                let h = kept_s[q];
                assert(kept_s.contains(h));
                let ka = choose|ka: int| 0 <= ka < active0.len() && active0[ka] == h;
                assert(old(self).active_objects@[ka] == h);
                lemma_not_cleaned_index(active0, objects0, expired@, ka);
                let free = self.object_pool.free_list();
                if free.contains(h.index as usize) {
                    let f = choose|f: int| 0 <= f < free.len() && free[f] == h.index as usize;
                    if f >= free0.len() {
                        let c = f - free0.len();
                        assert(handle_indices(cleaned)[c] == cleaned[c].index as usize);
                        assert(has_index(cleaned, h.index as int));
                    } else {
                        assert(free0[f] == h.index as usize);
                    }
                }
            }
            let fl = self.object_pool.free_list();
            let ci = handle_indices(cleaned);
            assert forall|a: int, b: int| 0 <= a < fl.len() && 0 <= b < fl.len() && a != b implies fl[a] != fl[b] by {
                if a >= free0.len() && b < free0.len() {
                    let c = a - free0.len();
                    assert(cleaned.contains(cleaned[c]));
                    let ka = choose|ka: int| 0 <= ka < active0.len() && active0[ka] == cleaned[c];
                    assert(old(self).active_objects@[ka] == cleaned[c]);
                    assert(fl[b] == free0[b]);
                } else if a < free0.len() && b >= free0.len() {
                    let c = b - free0.len();
                    assert(cleaned.contains(cleaned[c]));
                    let ka = choose|ka: int| 0 <= ka < active0.len() && active0[ka] == cleaned[c];
                    assert(old(self).active_objects@[ka] == cleaned[c]);
                    assert(fl[a] == free0[a]);
                } else if a >= free0.len() && b >= free0.len() {
                    assert(ci[a - free0.len()] != ci[b - free0.len()]);
                } else {
                    assert(fl[a] == free0[a] && fl[b] == free0[b]);
                }
            }
        }
    }

    /// Start of a frame: the per-frame update, releasing the objects in `expired` and
    /// the despawned ones.
    pub fn begin_frame(&mut self, expired: &[DynamicObjectHandle])
        requires
            old(self).wf(),
            old(self).spec_stats().total_despawned + old(self).active_seq().len() <= u64::MAX,
        ensures
            final(self).wf(),
            final(self).spec_max_instances() == old(self).spec_max_instances(),
            Self::update_post(*old(self), *final(self), expired@),
    {
        self.update(expired);
    }

    /// End of a frame: nothing is left to do once the frame was recorded.
    pub fn end_frame(&mut self)
        ensures
            *final(self) == *old(self),
    {
    }

    /// The active handles.
    pub fn get_active_objects(&self) -> (r: &[DynamicObjectHandle])
        ensures
            r@ == self.active_seq(),
    {
        self.active_objects.as_slice()
    }

    /// The statistics.
    pub fn get_stats(&self) -> (r: &DynamicObjectStats)
        ensures
            *r == self.spec_stats(),
    {
        &self.stats
    }

    /// Number of free slots.
    pub fn available_count(&self) -> (n: usize)
        ensures
            n == self.pool().free_list().len(),
    {
        self.object_pool.available_count()
    }

    /// Number of slots in use.
    pub fn active_count(&self) -> (n: usize)
        requires
            self.wf(),
        ensures
            n == self.spec_max_instances() - self.pool().free_list().len(),
    {
        proof {
            self.lemma_wf();
        }
        self.object_pool.active_count()
    }

    /// The capacity.
    pub fn capacity(&self) -> (n: usize)
        ensures
            n == self.spec_max_instances(),
    {
        self.max_instances
    }
}

/// A despawned object is released by the next update: its handle stops being valid,
/// leaves the active list, and its slot is back on the free list.
pub proof fn law_despawned_object_released_on_update<P: Default + Clone>(
    m0: DynamicObjectManager<P>,
    m1: DynamicObjectManager<P>,
    m2: DynamicObjectManager<P>,
    handle: DynamicObjectHandle,
    expired: Seq<DynamicObjectHandle>,
)
    requires
        m0.wf(),
        m0.active_seq().contains(handle),
        DynamicObjectManager::despawn_post(m0, m1, handle),
        m1.wf(),
        DynamicObjectManager::update_post(m1, m2, expired),
    ensures
        !m2.pool().handle_valid(handle),
        !m2.active_seq().contains(handle),
        m2.pool().free_list().contains(handle.index as usize),
{
    m0.lemma_wf();
    m1.lemma_wf();
    let k = choose|k: int| 0 <= k < m1.active_seq().len() && m1.active_seq()[k] == handle;
    assert(m0.pool().handle_valid(m0.active_seq()[k]));
    assert(m1.object_of(handle).state == ResourceState::PendingCleanup);
    lemma_released(m1, m2, handle, expired, k);
}

/// An active object the caller reports expired is released by the update.
pub proof fn law_expired_object_released_on_update<P: Default + Clone>(
    m0: DynamicObjectManager<P>,
    m1: DynamicObjectManager<P>,
    handle: DynamicObjectHandle,
    expired: Seq<DynamicObjectHandle>,
)
    requires
        m0.wf(),
        m0.active_seq().contains(handle),
        expired.contains(handle),
        DynamicObjectManager::update_post(m0, m1, expired),
    ensures
        !m1.pool().handle_valid(handle),
        !m1.active_seq().contains(handle),
        m1.pool().free_list().contains(handle.index as usize),
{
    m0.lemma_wf();
    let k = choose|k: int| 0 <= k < m0.active_seq().len() && m0.active_seq()[k] == handle;
    lemma_released(m0, m1, handle, expired, k);
}

/// An active object that is neither reported expired nor despawned survives the
/// update unchanged, under the same handle.
pub proof fn law_live_object_kept_on_update<P: Default + Clone>(
    m0: DynamicObjectManager<P>,
    m1: DynamicObjectManager<P>,
    handle: DynamicObjectHandle,
    expired: Seq<DynamicObjectHandle>,
)
    requires
        m0.wf(),
        m0.active_seq().contains(handle),
        !expired.contains(handle),
        m0.object_of(handle).state == ResourceState::Active,
        DynamicObjectManager::update_post(m0, m1, expired),
    ensures
        m1.pool().handle_valid(handle),
        m1.active_seq().contains(handle),
        m1.object_of(handle) == m0.object_of(handle),
{
    m0.lemma_wf();
    let hs = m0.active_seq();
    let objects = m0.pool().object_seq();
    let k = choose|k: int| 0 <= k < hs.len() && hs[k] == handle;
    assert(m0.pool().handle_valid(hs[k]));
    lemma_not_cleaned_index(hs, objects, expired, k);
    lemma_keep_list_complete(hs, objects, expired, k);
}

/// An element of `hs` that `update` does not release is on `keep_list(hs, ..)`.
pub proof fn lemma_keep_list_complete<P>(
    hs: Seq<DynamicObjectHandle>,
    objects: Seq<DynamicRenderData<P>>,
    expired: Seq<DynamicObjectHandle>,
    k: int,
)
    requires
        0 <= k < hs.len(),
        !should_clean(objects, expired, hs[k]),
    ensures
        keep_list(hs, objects, expired).contains(hs[k]),
    decreases hs.len(),
{
    let c = keep_list(hs, objects, expired);
    if k == hs.len() - 1 {
        assert(c[c.len() - 1] == hs[k]);
    } else {
        lemma_keep_list_complete(hs.drop_last(), objects, expired, k);
        let c0 = keep_list(hs.drop_last(), objects, expired);
        let i = choose|i: int| 0 <= i < c0.len() && c0[i] == hs[k];
        assert(c[i] == hs[k]);
    }
}

/// The `k`-th active handle, when `update` releases it, is invalid afterwards, off
/// the active list, and its slot is free.
proof fn lemma_released<P: Default + Clone>(
    m0: DynamicObjectManager<P>,
    m1: DynamicObjectManager<P>,
    handle: DynamicObjectHandle,
    expired: Seq<DynamicObjectHandle>,
    k: int,
)
    requires
        m0.wf(),
        0 <= k < m0.active_seq().len(),
        m0.active_seq()[k] == handle,
        should_clean(m0.pool().object_seq(), expired, handle),
        DynamicObjectManager::update_post(m0, m1, expired),
    ensures
        !m1.pool().handle_valid(handle),
        !m1.active_seq().contains(handle),
        m1.pool().free_list().contains(handle.index as usize),
{
    m0.lemma_wf();
    let hs = m0.active_seq();
    let objects = m0.pool().object_seq();
    let cleaned = clean_list(hs, objects, expired);
    lemma_clean_list_complete(hs, objects, expired, k);
    lemma_lists_subseq(hs, objects, expired);
    assert(m0.pool().handle_valid(hs[k]));
    let q = cleaned.index_of(handle);
    assert(has_index(cleaned, handle.index as int));
    let f0 = m0.pool().free_list();
    assert(m1.pool().free_list()[f0.len() + q] == handle_indices(cleaned)[q]);
    if m1.active_seq().contains(handle) {
        assert(keep_list(hs, objects, expired).contains(handle));
    }
}

} // verus!
