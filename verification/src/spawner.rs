//! Spawner: a front end to the dynamic object manager that refuses spawns on a full
//! pool, checks handles before despawning and keeps lifetime statistics.
//!
//! Which objects have outlived their lifetime depends on the clock, so
//! `update_lifecycle` takes the handles the caller found expired.

use vstd::prelude::*;
use vstd::string::StringExecFns;

use crate::handles::DynamicObjectHandle;
use crate::object_manager::{DynamicObjectError, DynamicObjectManager, DynamicRenderData, DynamicObjectStats};
use crate::text::{append_decimal, decimal};

verus! {

/// Errors that can occur during dynamic object spawning.
#[derive(Debug)]
pub enum SpawnerError {
    /// Pool is full, cannot spawn more objects
    PoolExhausted {
        /// Current active object count
        active_count: usize,
        /// Maximum pool capacity
        max_capacity: usize,
    },
    /// Invalid spawn parameters
    InvalidParameters {
        /// Description of the parameter issue
        reason: String,
    },
    /// Handle is invalid or stale
    InvalidHandle {
        /// The problematic handle
        handle: DynamicObjectHandle,
        /// Reason for invalidity
        reason: String,
    },
    /// Underlying object manager error
    ObjectManagerError(DynamicObjectError),
    /// Resource allocation failed
    ResourceAllocationFailed(String),
}

impl SpawnerError {
    /// The text of the error, as it is displayed.
    pub open spec fn spec_message(&self) -> Seq<char> {
        match self {
            SpawnerError::PoolExhausted { active_count, max_capacity } => "Pool exhausted: "@ + decimal(
                *active_count as nat,
            ) + "/"@ + decimal(*max_capacity as nat) + " objects active"@,
            SpawnerError::InvalidParameters { reason } => "Invalid parameters: "@ + reason@,
            SpawnerError::InvalidHandle { handle, reason } => "Invalid handle "@ + handle.spec_debug_text()
                + ": "@ + reason@,
            SpawnerError::ObjectManagerError(e) => "Object manager error: "@ + e.spec_message(),
            SpawnerError::ResourceAllocationFailed(msg) => "Resource allocation failed: "@ + msg@,
        }
    }

    /// The text of the error, as it is displayed.
    pub fn message(&self) -> (s: String)
        ensures
            s@ == self.spec_message(),
    {
        match self {
            SpawnerError::PoolExhausted { active_count, max_capacity } => {
                let mut s = String::from_str("Pool exhausted: ");
                append_decimal(&mut s, *active_count as u64);
                s.append("/");
                append_decimal(&mut s, *max_capacity as u64);
                s.append(" objects active");
                s
            },
            SpawnerError::InvalidParameters { reason } => {
                let mut s = String::from_str("Invalid parameters: ");
                s.append(reason.as_str());
                s
            },
            SpawnerError::InvalidHandle { handle, reason } => {
                let mut s = String::from_str("Invalid handle ");
                let h = handle.debug_text();
                s.append(h.as_str());
                s.append(": ");
                s.append(reason.as_str());
                s
            },
            SpawnerError::ObjectManagerError(e) => {
                let mut s = String::from_str("Object manager error: ");
                let m = e.message();
                s.append(m.as_str());
                s
            },
            SpawnerError::ResourceAllocationFailed(msg) => {
                let mut s = String::from_str("Resource allocation failed: ");
                s.append(msg.as_str());
                s
            },
        }
    }
}

impl From<DynamicObjectError> for SpawnerError {
    fn from(error: DynamicObjectError) -> (r: Self)
    {
        SpawnerError::ObjectManagerError(error)
    }
}

impl vstd::std_specs::convert::FromSpecImpl<DynamicObjectError> for SpawnerError {
    open spec fn obeys_from_spec() -> bool {
        true
    }

    open spec fn from_spec(error: DynamicObjectError) -> Self {
        SpawnerError::ObjectManagerError(error)
    }
}

/// Information about a spawned object: its handle and payload.
#[derive(Debug, Clone)]
pub struct ObjectInfo<P> {
    /// Object handle
    pub handle: DynamicObjectHandle,
    /// The object's payload (transform and timing)
    pub data: P,
    /// Associated entity ID (if any)
    pub entity_id: Option<u64>,
    /// Current render flags
    pub render_flags: u32,
}

/// Counters of the spawner.
#[derive(Debug, Clone, Copy, PartialEq, Eq, Structural)]
pub struct SpawnerStats {
    /// Current number of occupied pool slots
    pub active_objects: usize,
    /// Maximum pool capacity
    pub max_capacity: usize,
    /// Total objects spawned since creation
    pub total_spawned: u64,
    /// Total objects despawned since creation
    pub total_despawned: u64,
    /// Objects released by lifecycle updates
    pub auto_despawned: u64,
    /// Objects despawned on request
    pub manual_despawned: u64,
    /// Peak number of occupied slots
    pub peak_active: usize,
}

/// Spawner over a [`DynamicObjectManager`] with payloads of type `P`.
pub struct DefaultDynamicSpawner<P> {
    object_manager: DynamicObjectManager<P>,
    stats: SpawnerStats,
}

impl<P> DefaultDynamicSpawner<P> {
    /// The underlying object manager.
    pub closed spec fn manager(&self) -> DynamicObjectManager<P> {
        self.object_manager
    }

    /// The spawner's counters.
    pub closed spec fn spec_stats(&self) -> SpawnerStats {
        self.stats
    }

    /// Number of occupied slots of the manager's pool.
    pub open spec fn occupied(&self) -> int {
        self.manager().spec_max_instances() - self.manager().pool().free_list().len()
    }

    /// Invariant: the manager is well formed, the capacity is the manager's, the active
    /// count is the number of occupied slots, and the peak is at least the active count.
    pub closed spec fn wf(&self) -> bool {
        &&& self.object_manager.wf()
        &&& self.stats.max_capacity == self.object_manager.spec_max_instances()
        &&& self.stats.active_objects == self.occupied()
        &&& self.stats.peak_active >= self.stats.active_objects
    }

    /// What a well-formed spawner's counters say.
    pub proof fn lemma_wf(&self)
        requires
            self.wf(),
        ensures
            self.manager().wf(),
            self.spec_stats().max_capacity == self.manager().spec_max_instances(),
            self.spec_stats().active_objects == self.occupied(),
            self.spec_stats().peak_active >= self.spec_stats().active_objects,
            0 <= self.occupied() <= self.manager().spec_max_instances(),
    {
        self.object_manager.lemma_wf();
    }
}

impl<P: Default + Clone> DefaultDynamicSpawner<P> {
    /// Create a spawner whose pool holds `max_objects` objects.
    pub fn new(max_objects: usize) -> (s: Self)
        requires
            max_objects <= 0xFFFF_FFFFusize,
        ensures
            s.wf(),
            s.manager().spec_max_instances() == max_objects,
            s.manager().active_seq().len() == 0,
            s.manager().pool().free_list().len() == max_objects,
            s.manager().spec_stats() == (DynamicObjectStats {
                total_spawned: 0,
                total_despawned: 0,
                current_active: 0,
                peak_active: 0,
                pool_exhaustions: 0,
            }),
            s.spec_stats() == (SpawnerStats {
                active_objects: 0,
                max_capacity: max_objects,
                total_spawned: 0,
                total_despawned: 0,
                auto_despawned: 0,
                manual_despawned: 0,
                peak_active: 0,
            }),
    {
        let object_manager = DynamicObjectManager::new(max_objects);
        DefaultDynamicSpawner {
            object_manager,
            stats: SpawnerStats {
                active_objects: 0,
                max_capacity: max_objects,
                total_spawned: 0,
                total_despawned: 0,
                auto_despawned: 0,
                manual_despawned: 0,
                peak_active: 0,
            },
        }
    }

    /// The underlying object manager.
    pub fn object_manager(&self) -> (m: &DynamicObjectManager<P>)
        ensures
            *m == self.manager(),
    {
        &self.object_manager
    }

    /// Spawn an object carrying `params`.  Refused with `PoolExhausted` when every slot
    /// is occupied; otherwise the manager spawns it and the counters are updated.
    pub fn spawn_dynamic_object(&mut self, params: P) -> (r: Result<DynamicObjectHandle, SpawnerError>)
        requires
            old(self).wf(),
            old(self).spec_stats().total_spawned < u64::MAX,
            old(self).manager().spec_stats().total_spawned < u64::MAX,
        ensures
            final(self).wf(),
            old(self).occupied() >= old(self).manager().spec_max_instances() ==> {
                &&& r matches Err(SpawnerError::PoolExhausted { active_count, max_capacity })
                    && active_count == old(self).occupied()
                    && max_capacity == old(self).manager().spec_max_instances()
                &&& final(self).manager() == old(self).manager()
                &&& final(self).spec_stats() == old(self).spec_stats()
            },
            old(self).occupied() < old(self).manager().spec_max_instances() ==> {
                let index = old(self).manager().pool().free_list()[0];
                let generation = old(self).manager().pool().generation_seq()[index as int];
                let h = DynamicObjectHandle { index: index as u32, generation };
                &&& r matches Ok(handle) && handle == h
                &&& final(self).manager().active_seq() == old(self).manager().active_seq().push(h)
                &&& final(self).manager().pool().object_seq()[index as int].data == params
                &&& final(self).occupied() == old(self).occupied() + 1
                &&& final(self).spec_stats() == (SpawnerStats {
                    total_spawned: (old(self).spec_stats().total_spawned + 1) as u64,
                    active_objects: final(self).occupied() as usize,
                    peak_active: if final(self).occupied() > old(self).spec_stats().peak_active {
                        final(self).occupied() as usize
                    } else {
                        old(self).spec_stats().peak_active
                    },
                    ..old(self).spec_stats()
                })
            },
    {
        proof {
            self.lemma_wf();
            self.object_manager.lemma_wf();
            self.manager().pool().lemma_wf();
        }
        let active_count = self.object_manager.active_count();
        if active_count >= self.stats.max_capacity {
            return Err(SpawnerError::PoolExhausted { active_count, max_capacity: self.stats.max_capacity });
        }
        let handle = match self.object_manager.spawn_object(params) {
            Ok(h) => h,
            Err(e) => {
                return Err(SpawnerError::ObjectManagerError(e));
            },
        };
        proof {
            self.object_manager.lemma_wf();
            old(self).object_manager.lemma_wf();
            old(self).manager().pool().lemma_wf();
            self.manager().pool().lemma_wf();
        }
        self.stats.total_spawned = self.stats.total_spawned + 1;
        self.stats.active_objects = self.object_manager.active_count();
        if self.stats.active_objects > self.stats.peak_active {
            self.stats.peak_active = self.stats.active_objects;
        }
        Ok(handle)
    }

    /// Despawn the object a handle refers to.  A stale or out-of-range handle is refused
    /// with `InvalidHandle`; otherwise the object is marked for release at the next
    /// lifecycle update and the despawn is counted.
    pub fn despawn_dynamic_object(&mut self, handle: DynamicObjectHandle) -> (r: Result<(), SpawnerError>)
        requires
            old(self).wf(),
            old(self).spec_stats().total_despawned < u64::MAX,
            old(self).spec_stats().manual_despawned < u64::MAX,
        ensures
            final(self).wf(),
            !old(self).manager().pool().handle_valid(handle) ==> {
                &&& r matches Err(SpawnerError::InvalidHandle { handle: h, reason })
                    && h == handle && reason@ == "Handle is invalid or stale"@
                &&& final(self).manager() == old(self).manager()
                &&& final(self).spec_stats() == old(self).spec_stats()
            },
            old(self).manager().pool().handle_valid(handle) ==> {
                &&& r is Ok
                &&& DynamicObjectManager::despawn_post(old(self).manager(), final(self).manager(), handle)
                &&& final(self).spec_stats() == (SpawnerStats {
                    total_despawned: (old(self).spec_stats().total_despawned + 1) as u64,
                    manual_despawned: (old(self).spec_stats().manual_despawned + 1) as u64,
                    ..old(self).spec_stats()
                })
            },
    {
        if self.object_manager.get_object(handle).is_err() {
            return Err(SpawnerError::InvalidHandle {
                handle,
                reason: String::from_str("Handle is invalid or stale"),
            });
        }
        match self.object_manager.despawn_object(handle) {
            Ok(()) => {},
            Err(e) => {
                return Err(SpawnerError::ObjectManagerError(e));
            },
        }
        proof {
            self.object_manager.lemma_wf();
            old(self).object_manager.lemma_wf();
        }
        self.stats.total_despawned = self.stats.total_despawned + 1;
        self.stats.manual_despawned = self.stats.manual_despawned + 1;
        self.stats.active_objects = self.object_manager.active_count();
        Ok(())
    }

    /// Current counters, with the active count taken from the pool.
    pub fn get_spawner_stats(&self) -> (s: SpawnerStats)
        requires
            self.wf(),
        ensures
            s == self.spec_stats(),
            s.active_objects == self.occupied(),
    {
        proof {
            self.lemma_wf();
        }
        let mut stats = self.stats;
        stats.active_objects = self.object_manager.active_count();
        stats
    }

    /// Per-frame lifecycle update: the manager releases the objects in `expired` and the
    /// despawned ones, and every slot freed by it is counted as an automatic despawn.
    pub fn update_lifecycle(&mut self, expired: &[DynamicObjectHandle])
        requires
            old(self).wf(),
            old(self).manager().spec_stats().total_despawned + old(self).manager().active_seq().len()
                <= u64::MAX,
            old(self).spec_stats().auto_despawned + old(self).occupied() <= u64::MAX,
            old(self).spec_stats().total_despawned + old(self).occupied() <= u64::MAX,
        ensures
            final(self).wf(),
            DynamicObjectManager::update_post(old(self).manager(), final(self).manager(), expired@),
            final(self).spec_stats() == (SpawnerStats {
                auto_despawned: (old(self).spec_stats().auto_despawned + (old(self).occupied()
                    - final(self).occupied())) as u64,
                total_despawned: (old(self).spec_stats().total_despawned + (old(self).occupied()
                    - final(self).occupied())) as u64,
                active_objects: final(self).occupied() as usize,
                ..old(self).spec_stats()
            }),
    {
        proof {
            self.lemma_wf();
        }
        let initial_count = self.object_manager.active_count();
        self.object_manager.update(expired);
        proof {
            self.object_manager.lemma_wf();
        }
        let final_count = self.object_manager.active_count();
        let auto_despawned = initial_count - final_count;
        self.stats.auto_despawned = self.stats.auto_despawned + auto_despawned as u64;
        self.stats.total_despawned = self.stats.total_despawned + auto_despawned as u64;
        self.stats.active_objects = final_count;
    }
}

impl<P: Default + Copy> DefaultDynamicSpawner<P> {
    /// Information about the object a handle refers to, or `None` for a stale or
    /// out-of-range handle.
    pub fn get_object_info(&self, handle: DynamicObjectHandle) -> (r: Option<ObjectInfo<P>>)
        requires
            self.wf(),
        ensures
            self.manager().pool().handle_valid(handle) ==> r == Some(ObjectInfo {
                handle,
                data: self.manager().object_of(handle).data,
                entity_id: None,
                render_flags: 0,
            }),
            !self.manager().pool().handle_valid(handle) ==> r is None,
    {
        match self.object_manager.get_object(handle) {
            Ok(render_data) => Some(ObjectInfo { handle, data: render_data.data, entity_id: None, render_flags: 0 }),
            Err(_) => None,
        }
    }
}

} // verus!
