//! Pre-allocated pools of per-object GPU resources with handle-based access.
//!
//! Uniform buffers are pooled per frame in flight; descriptor sets and material
//! instances have a single pool each.  Every handle carries the generation its slot
//! had when it was handed out, and is honoured only while that slot is still
//! allocated with that generation.

use ash::vk;
use vstd::prelude::*;
use vstd::string::StringExecFns;

use crate::error::VulkanError;
use crate::handles::{BufferHandle, DescriptorSetHandle, MaterialInstanceHandle, FRAMES_IN_FLIGHT};
use crate::slot_pool::{GenerationalSlot, SlotError, SlotPool};
use crate::vk_types::null_descriptor_set;

verus! {

/// Default number of resources per pool.
pub const DEFAULT_POOL_SIZE: usize = 100;

/// Pool of uniform buffers, one set of `pool_size` buffers per frame in flight.
pub struct BufferPool {
    frames: Vec<SlotPool<vk::Buffer>>,
    pool_size: usize,
}

impl BufferPool {
    /// The per-frame slot pools.
    pub closed spec fn frame_pools(&self) -> Seq<SlotPool<vk::Buffer>> {
        self.frames@
    }

    /// The number of buffers per frame.
    pub closed spec fn spec_pool_size(&self) -> nat {
        self.pool_size as nat
    }

    /// One consistent slot pool of `pool_size` buffers per frame in flight.
    pub closed spec fn wf(&self) -> bool {
        &&& self.frames@.len() == FRAMES_IN_FLIGHT
        &&& forall|f: int| 0 <= f < FRAMES_IN_FLIGHT ==> (#[trigger] self.frames@[f]).wf()
            && self.frames@[f].size() == self.pool_size
    }

    /// Whether a buffer handle is honoured: its frame is in flight and its slot is
    /// allocated with the handle's generation.
    pub open spec fn handle_valid(&self, handle: BufferHandle) -> bool {
        &&& handle.frame < FRAMES_IN_FLIGHT
        &&& self.frame_pools()[handle.frame as int].slot_valid(handle.index, handle.generation)
    }

    /// A well-formed pool has one well-formed slot pool per frame in flight, each of
    /// the pool's size.
    pub proof fn lemma_frames(&self)
        requires
            self.wf(),
        ensures
            self.frame_pools().len() == FRAMES_IN_FLIGHT,
            forall|f: int| 0 <= f < FRAMES_IN_FLIGHT ==> (#[trigger] self.frame_pools()[f]).wf()
                && self.frame_pools()[f].size() == self.spec_pool_size()
                && self.frame_pools()[f].free_seq().len() <= self.spec_pool_size(),
    {
        assert forall|f: int| 0 <= f < FRAMES_IN_FLIGHT implies (#[trigger] self.frame_pools()[f]).wf()
            && self.frame_pools()[f].size() == self.spec_pool_size()
            && self.frame_pools()[f].free_seq().len() <= self.spec_pool_size() by {
            self.frames@[f].lemma_wf();
        }
    }

    /// Build the pool from the buffers created for each frame in flight (in frame
    /// order, `pool_size` buffers each).  Every slot starts free at generation 0.
    pub fn new(pool_size: usize, frame_buffers: Vec<Vec<vk::Buffer>>) -> (p: Self)
        requires
            pool_size <= 0x1_0000_0000,
            frame_buffers@.len() == FRAMES_IN_FLIGHT,
            forall|f: int| 0 <= f < FRAMES_IN_FLIGHT ==> (#[trigger] frame_buffers@[f])@.len() == pool_size,
        ensures
            p.wf(),
            p.spec_pool_size() == pool_size,
            forall|f: int, i: int| 0 <= f < FRAMES_IN_FLIGHT && 0 <= i < pool_size ==>
                #[trigger] p.frame_pools()[f].slots()[i] == (GenerationalSlot {
                    resource: frame_buffers@[f]@[i],
                    generation: 0,
                    allocated: false,
                }),
            forall|f: int| 0 <= f < FRAMES_IN_FLIGHT ==> #[trigger] p.frame_pools()[f].free_seq()
                == Seq::new(pool_size as nat, |i: int| i as u32),
    {
        let mut frame_buffers = frame_buffers;
        let ghost fb0 = frame_buffers@;
        let mut frames: Vec<SlotPool<vk::Buffer>> = Vec::with_capacity(FRAMES_IN_FLIGHT);
        let mut f: usize = 0;
        while f < FRAMES_IN_FLIGHT
            invariant
                f <= FRAMES_IN_FLIGHT,
                frames@.len() == f,
                frame_buffers@ == fb0.subrange(f as int, FRAMES_IN_FLIGHT as int),
                fb0.len() == FRAMES_IN_FLIGHT,
                pool_size <= 0x1_0000_0000,
                forall|g: int| 0 <= g < FRAMES_IN_FLIGHT ==> (#[trigger] fb0[g])@.len() == pool_size,
                forall|g: int| 0 <= g < f ==> (#[trigger] frames@[g]).wf() && frames@[g].size() == pool_size
                    && frames@[g].free_seq() == Seq::new(pool_size as nat, |i: int| i as u32)
                    && forall|i: int| 0 <= i < pool_size ==> #[trigger] frames@[g].slots()[i] == (GenerationalSlot {
                        resource: fb0[g]@[i],
                        generation: 0,
                        allocated: false,
                    }),
            decreases FRAMES_IN_FLIGHT - f,
        {
            let buffers = frame_buffers.remove(0);
            assert(buffers == fb0[f as int]);
            let pool = SlotPool::new(buffers);
            frames.push(pool);
            f = f + 1;
            assert(frame_buffers@ =~= fb0.subrange(f as int, FRAMES_IN_FLIGHT as int));
        }
        BufferPool { frames, pool_size }
    }

    /// Hand out the front free buffer of a frame, bumping its generation.  Returns
    /// `None` when the frame is not in flight or has no free buffer.
    pub fn allocate(&mut self, frame_index: usize) -> (r: Option<BufferHandle>)
        requires
            old(self).wf(),
            frame_index < FRAMES_IN_FLIGHT ==> {
                let fp = old(self).frame_pools()[frame_index as int];
                fp.free_seq().len() > 0 ==> fp.slots()[fp.free_seq()[0] as int].generation < u32::MAX
            },
        ensures
            final(self).wf(),
            final(self).spec_pool_size() == old(self).spec_pool_size(),
            frame_index >= FRAMES_IN_FLIGHT ==> r is None && final(self).frame_pools() == old(self).frame_pools(),
            frame_index < FRAMES_IN_FLIGHT ==> {
                let fp0 = old(self).frame_pools()[frame_index as int];
                let fp1 = final(self).frame_pools()[frame_index as int];
                &&& forall|f: int| 0 <= f < FRAMES_IN_FLIGHT && f != frame_index ==>
                    #[trigger] final(self).frame_pools()[f] == old(self).frame_pools()[f]
                &&& fp0.free_seq().len() == 0 ==> r is None && fp1.slots() == fp0.slots()
                    && fp1.free_seq() == fp0.free_seq()
                &&& fp0.free_seq().len() > 0 ==> {
                    let index = fp0.free_seq()[0];
                    let generation = (fp0.slots()[index as int].generation + 1) as u32;
                    &&& r == Some(BufferHandle { index, generation, frame: frame_index })
                    &&& fp1.free_seq() == fp0.free_seq().subrange(1, fp0.free_seq().len() as int)
                    &&& fp1.slots() == fp0.slots().update(
                        index as int,
                        GenerationalSlot { generation, allocated: true, ..fp0.slots()[index as int] },
                    )
                }
            },
    {
        if frame_index >= FRAMES_IN_FLIGHT {
            return None;
        }
        let ghost frames0 = self.frames@;
        let r = self.frames[frame_index].allocate();
        proof {
            assert forall|f: int| 0 <= f < FRAMES_IN_FLIGHT implies (#[trigger] self.frames@[f]).wf()
                && self.frames@[f].size() == self.pool_size by {
                if f != frame_index as int {
                    assert(self.frames@[f] == frames0[f]);
                }
            }
        }
        match r {
            Some((index, generation)) => Some(BufferHandle::new(index, generation, frame_index)),
            None => None,
        }
    }

    /// Return a buffer to its frame's free list.  Fails with "Invalid buffer handle"
    /// when the frame or index is out of range, and with "Buffer handle is stale or not
    /// allocated" when the slot is free or has another generation.
    pub fn deallocate(&mut self, handle: BufferHandle) -> (r: Result<(), &'static str>)
        requires
            old(self).wf(),
        ensures
            final(self).wf(),
            final(self).spec_pool_size() == old(self).spec_pool_size(),
            (handle.frame >= FRAMES_IN_FLIGHT || handle.index >= old(self).spec_pool_size()) ==>
                r == Err::<(), &'static str>("Invalid buffer handle") && final(self).frame_pools() == old(self).frame_pools(),
            (handle.frame < FRAMES_IN_FLIGHT && handle.index < old(self).spec_pool_size() && !old(self).handle_valid(handle)) ==>
                r == Err::<(), &'static str>("Buffer handle is stale or not allocated")
                && final(self).frame_pools() == old(self).frame_pools(),
            old(self).handle_valid(handle) ==> {
                let fp0 = old(self).frame_pools()[handle.frame as int];
                let fp1 = final(self).frame_pools()[handle.frame as int];
                &&& r is Ok
                &&& forall|f: int| 0 <= f < FRAMES_IN_FLIGHT && f != handle.frame ==>
                    #[trigger] final(self).frame_pools()[f] == old(self).frame_pools()[f]
                &&& fp1.free_seq() == fp0.free_seq().push(handle.index)
                &&& fp1.slots() == fp0.slots().update(
                    handle.index as int,
                    GenerationalSlot { allocated: false, ..fp0.slots()[handle.index as int] },
                )
            },
    {
        if handle.frame >= FRAMES_IN_FLIGHT || handle.index as usize >= self.pool_size {
            return Err("Invalid buffer handle");
        }
        let ghost frames0 = self.frames@;
        let r = self.frames[handle.frame].deallocate(handle.index, handle.generation);
        proof {
            assert forall|f: int| 0 <= f < FRAMES_IN_FLIGHT implies (#[trigger] self.frames@[f]).wf()
                && self.frames@[f].size() == self.pool_size by {
                if f != handle.frame as int {
                    assert(self.frames@[f] == frames0[f]);
                }
            }
            if r.is_err() {
                assert(self.frames@ =~= frames0);
            }
        }
        match r {
            Ok(()) => Ok(()),
            Err(_) => Err("Buffer handle is stale or not allocated"),
        }
    }

    /// The buffer a handle refers to, while the handle is honoured.
    pub fn get_buffer(&self, handle: BufferHandle) -> (r: Option<vk::Buffer>)
        requires
            self.wf(),
        ensures
            r == (if self.handle_valid(handle) {
                Some(self.frame_pools()[handle.frame as int].slots()[handle.index as int].resource)
            } else {
                None
            }),
    {
        if handle.frame >= FRAMES_IN_FLIGHT || handle.index as usize >= self.pool_size {
            return None;
        }
        match self.frames[handle.frame].get(handle.index, handle.generation) {
            Some(b) => Some(*b),
            None => None,
        }
    }

    /// The check made before writing into a pooled buffer: the handle must name a
    /// buffer of a frame in flight that is allocated with the handle's generation.
    /// Returns that buffer.
    pub fn check_write_target(&self, handle: BufferHandle) -> (r: Result<vk::Buffer, VulkanError>)
        requires
            self.wf(),
        ensures
            self.handle_valid(handle) ==> r == Ok::<vk::Buffer, VulkanError>(
                self.frame_pools()[handle.frame as int].slots()[handle.index as int].resource,
            ),
            (handle.frame >= FRAMES_IN_FLIGHT || handle.index >= self.spec_pool_size()) ==>
                (r matches Err(VulkanError::InvalidOperation { reason }) && reason@ == "Invalid buffer handle"@),
            (handle.frame < FRAMES_IN_FLIGHT && handle.index < self.spec_pool_size() && !self.handle_valid(handle)) ==>
                (r matches Err(VulkanError::InvalidOperation { reason })
                    && reason@ == "Buffer handle is stale or not allocated"@),
    {
        if handle.frame >= FRAMES_IN_FLIGHT || handle.index as usize >= self.pool_size {
            return Err(VulkanError::InvalidOperation { reason: String::from_str("Invalid buffer handle") });
        }
        match self.frames[handle.frame].get(handle.index, handle.generation) {
            Some(b) => Ok(*b),
            None => Err(VulkanError::InvalidOperation {
                reason: String::from_str("Buffer handle is stale or not allocated"),
            }),
        }
    }

    /// Number of free buffers of a frame (0 for a frame not in flight).
    pub fn available_count(&self, frame_index: usize) -> (n: usize)
        requires
            self.wf(),
        ensures
            n == (if frame_index < FRAMES_IN_FLIGHT {
                self.frame_pools()[frame_index as int].free_seq().len()
            } else {
                0
            }),
    {
        if frame_index < FRAMES_IN_FLIGHT {
            self.frames[frame_index].available_count()
        } else {
            0
        }
    }

    /// Number of buffers per frame.
    pub fn total_count(&self) -> (n: usize)
        ensures
            n == self.spec_pool_size(),
    {
        self.pool_size
    }
}

/// What a descriptor set slot holds.
pub struct DescriptorSetEntry {
    /// The descriptor set
    pub descriptor_set: vk::DescriptorSet,
    /// Material type the descriptor set is configured for
    pub material_type: u32,
}

/// Pool of descriptor sets.
pub struct DescriptorSetPool {
    slots: SlotPool<DescriptorSetEntry>,
    pool_size: usize,
    null_set: vk::DescriptorSet,
}

impl DescriptorSetPool {
    /// The slot pool.
    pub closed spec fn slot_pool(&self) -> SlotPool<DescriptorSetEntry> {
        self.slots
    }

    /// The null descriptor set that free placeholder slots hold.
    pub closed spec fn spec_null_set(&self) -> vk::DescriptorSet {
        self.null_set
    }

    /// A well-formed pool's slot pool is well formed and has `pool_size` slots.
    pub proof fn lemma_wf(&self)
        requires
            self.wf(),
        ensures
            self.slot_pool().wf(),
            self.slot_pool().size() == self.spec_pool_size(),
    {
    }

    /// The number of descriptor sets.
    pub closed spec fn spec_pool_size(&self) -> nat {
        self.pool_size as nat
    }

    /// The slot pool is consistent and has `pool_size` slots.
    pub closed spec fn wf(&self) -> bool {
        &&& self.slots.wf()
        &&& self.slots.size() == self.pool_size
    }

    /// Whether a descriptor set handle is honoured.
    pub open spec fn handle_valid(&self, handle: DescriptorSetHandle) -> bool {
        self.slot_pool().slot_valid(handle.index, handle.generation)
    }

    /// Create `pool_size` free placeholder slots (null descriptor set, material type 0)
    /// at generation 0.
    pub fn new(pool_size: usize) -> (p: Self)
        requires
            pool_size <= 0x1_0000_0000,
        ensures
            p.wf(),
            p.spec_pool_size() == pool_size,
            p.slot_pool().free_seq() == Seq::new(pool_size as nat, |i: int| i as u32),
            forall|i: int| 0 <= i < pool_size ==> {
                &&& !(#[trigger] p.slot_pool().slots()[i]).allocated
                &&& p.slot_pool().slots()[i].generation == 0
                &&& p.slot_pool().slots()[i].resource.material_type == 0
                &&& p.slot_pool().slots()[i].resource.descriptor_set == p.spec_null_set()
            },
    {
        let null_set = null_descriptor_set();
        let mut entries: Vec<DescriptorSetEntry> = Vec::with_capacity(pool_size);
        let mut i: usize = 0;
        while i < pool_size
            invariant
                i <= pool_size,
                entries@.len() == i,
                forall|j: int| 0 <= j < i ==> (#[trigger] entries@[j]).material_type == 0
                    && entries@[j].descriptor_set == null_set,
            decreases pool_size - i,
        {
            entries.push(DescriptorSetEntry { descriptor_set: null_set, material_type: 0 });
            i = i + 1;
        }
        DescriptorSetPool { slots: SlotPool::new(entries), pool_size, null_set }
    }

    /// Hand out the front free slot, storing the descriptor set and material type in it
    /// and bumping its generation; `None` when no slot is free.
    pub fn allocate(&mut self, material_type: u32, descriptor_set: vk::DescriptorSet) -> (r: Option<DescriptorSetHandle>)
        requires
            old(self).wf(),
            old(self).slot_pool().free_seq().len() > 0 ==>
                old(self).slot_pool().slots()[old(self).slot_pool().free_seq()[0] as int].generation < u32::MAX,
        ensures
            final(self).wf(),
            final(self).spec_pool_size() == old(self).spec_pool_size(),
            final(self).spec_null_set() == old(self).spec_null_set(),
            ({
                let sp0 = old(self).slot_pool();
                let sp1 = final(self).slot_pool();
                &&& sp0.free_seq().len() == 0 ==> r is None && sp1.slots() == sp0.slots()
                    && sp1.free_seq() == sp0.free_seq()
                &&& sp0.free_seq().len() > 0 ==> {
                    let index = sp0.free_seq()[0];
                    let generation = (sp0.slots()[index as int].generation + 1) as u32;
                    &&& r == Some(DescriptorSetHandle { index, generation, material_type })
                    &&& sp1.free_seq() == sp0.free_seq().subrange(1, sp0.free_seq().len() as int)
                    &&& sp1.slots() == sp0.slots().update(
                        index as int,
                        GenerationalSlot {
                            resource: DescriptorSetEntry { descriptor_set, material_type },
                            generation,
                            allocated: true,
                        },
                    )
                }
            }),
    {
        proof {
            self.slots.lemma_wf();
        }
        match self.slots.allocate() {
            Some((index, generation)) => {
                self.slots.set_resource(index, DescriptorSetEntry { descriptor_set, material_type });
                Some(DescriptorSetHandle::new(index, generation, material_type))
            },
            None => None,
        }
    }

    /// Return a descriptor set slot to the free list, resetting its descriptor set to
    /// null.  Fails with "Invalid descriptor set handle" for an index outside the pool
    /// and with "Descriptor set handle is stale or not allocated" otherwise.
    pub fn deallocate(&mut self, handle: DescriptorSetHandle) -> (r: Result<(), &'static str>)
        requires
            old(self).wf(),
        ensures
            final(self).wf(),
            final(self).spec_pool_size() == old(self).spec_pool_size(),
            final(self).spec_null_set() == old(self).spec_null_set(),
            handle.index >= old(self).spec_pool_size() ==> r == Err::<(), &'static str>("Invalid descriptor set handle")
                && final(self).slot_pool() == old(self).slot_pool(),
            handle.index < old(self).spec_pool_size() && !old(self).handle_valid(handle) ==>
                r == Err::<(), &'static str>("Descriptor set handle is stale or not allocated")
                && final(self).slot_pool() == old(self).slot_pool(),
            old(self).handle_valid(handle) ==> {
                let sp0 = old(self).slot_pool();
                let sp1 = final(self).slot_pool();
                let slot = sp0.slots()[handle.index as int];
                &&& r is Ok
                &&& sp1.free_seq() == sp0.free_seq().push(handle.index)
                &&& sp1.slots().len() == sp0.slots().len()
                &&& forall|i: int| 0 <= i < sp0.slots().len() && i != handle.index ==>
                    #[trigger] sp1.slots()[i] == sp0.slots()[i]
                &&& !sp1.slots()[handle.index as int].allocated
                &&& sp1.slots()[handle.index as int].generation == slot.generation
                &&& sp1.slots()[handle.index as int].resource.material_type == slot.resource.material_type
                &&& sp1.slots()[handle.index as int].resource.descriptor_set == old(self).spec_null_set()
            },
    {
        if handle.index as usize >= self.pool_size {
            return Err("Invalid descriptor set handle");
        }
        proof {
            self.slots.lemma_wf();
        }
        match self.slots.deallocate(handle.index, handle.generation) {
            Ok(()) => {
                proof {
                    self.slots.lemma_wf();
                }
                let material_type = self.slots.slot(handle.index).resource.material_type;
                let null_set = self.null_set;
                self.slots.set_resource(
                    handle.index,
                    DescriptorSetEntry { descriptor_set: null_set, material_type },
                );
                Ok(())
            },
            Err(_) => Err("Descriptor set handle is stale or not allocated"),
        }
    }

    /// The descriptor set a handle refers to, while the handle is honoured.
    pub fn get_descriptor_set(&self, handle: DescriptorSetHandle) -> (r: Option<vk::DescriptorSet>)
        requires
            self.wf(),
        ensures
            r == (if self.handle_valid(handle) {
                Some(self.slot_pool().slots()[handle.index as int].resource.descriptor_set)
            } else {
                None
            }),
    {
        match self.slots.get(handle.index, handle.generation) {
            Some(e) => Some(e.descriptor_set),
            None => None,
        }
    }

    /// Number of free descriptor sets.
    pub fn available_count(&self) -> (n: usize)
        ensures
            n == self.slot_pool().free_seq().len(),
    {
        self.slots.available_count()
    }

    /// Number of descriptor sets.
    pub fn total_count(&self) -> (n: usize)
        ensures
            n == self.spec_pool_size(),
    {
        self.pool_size
    }
}

/// What a material instance slot holds: the base material and its property overrides.
pub struct MaterialInstanceEntry<M, Q> {
    /// Base material the instance derives from
    pub base_material: M,
    /// Runtime property overrides
    pub material_properties: Q,
}

/// Pool of material instances with base materials of type `M` and property sets of
/// type `Q`.
pub struct MaterialInstancePool<M, Q> {
    slots: SlotPool<MaterialInstanceEntry<M, Q>>,
    pool_size: usize,
}

impl<M, Q> MaterialInstancePool<M, Q> {
    /// The slot pool.
    pub closed spec fn slot_pool(&self) -> SlotPool<MaterialInstanceEntry<M, Q>> {
        self.slots
    }

    /// The number of material instances.
    pub closed spec fn spec_pool_size(&self) -> nat {
        self.pool_size as nat
    }

    /// A well-formed pool's slot pool is well formed and has `pool_size` slots.
    pub proof fn lemma_wf(&self)
        requires
            self.wf(),
        ensures
            self.slot_pool().wf(),
            self.slot_pool().size() == self.spec_pool_size(),
    {
    }

    /// The slot pool is consistent and has `pool_size` slots.
    pub closed spec fn wf(&self) -> bool {
        &&& self.slots.wf()
        &&& self.slots.size() == self.pool_size
    }

    /// Whether a material instance handle is honoured.
    pub open spec fn handle_valid(&self, handle: MaterialInstanceHandle) -> bool {
        self.slot_pool().slot_valid(handle.index, handle.generation)
    }

    /// Hand out the front free slot, storing the base material and properties in it
    /// and bumping its generation; `None` when no slot is free.
    pub fn allocate(&mut self, base_material: M, properties: Q) -> (r: Option<MaterialInstanceHandle>)
        requires
            old(self).wf(),
            old(self).slot_pool().free_seq().len() > 0 ==>
                old(self).slot_pool().slots()[old(self).slot_pool().free_seq()[0] as int].generation < u32::MAX,
        ensures
            final(self).wf(),
            final(self).spec_pool_size() == old(self).spec_pool_size(),
            ({
                let sp0 = old(self).slot_pool();
                let sp1 = final(self).slot_pool();
                &&& sp0.free_seq().len() == 0 ==> r is None && sp1.slots() == sp0.slots()
                    && sp1.free_seq() == sp0.free_seq()
                &&& sp0.free_seq().len() > 0 ==> {
                    let index = sp0.free_seq()[0];
                    let generation = (sp0.slots()[index as int].generation + 1) as u32;
                    &&& r == Some(MaterialInstanceHandle { index, generation })
                    &&& sp1.free_seq() == sp0.free_seq().subrange(1, sp0.free_seq().len() as int)
                    &&& sp1.slots() == sp0.slots().update(
                        index as int,
                        GenerationalSlot {
                            resource: MaterialInstanceEntry { base_material, material_properties: properties },
                            generation,
                            allocated: true,
                        },
                    )
                }
            }),
    {
        proof {
            self.slots.lemma_wf();
        }
        match self.slots.allocate() {
            Some((index, generation)) => {
                self.slots.set_resource(
                    index,
                    MaterialInstanceEntry { base_material, material_properties: properties },
                );
                Some(MaterialInstanceHandle::new(index, generation))
            },
            None => None,
        }
    }

    /// Return a material instance slot to the free list.  Fails with "Invalid material
    /// instance handle" for an index outside the pool and with "Material instance
    /// handle is stale or not allocated" otherwise.
    pub fn deallocate(&mut self, handle: MaterialInstanceHandle) -> (r: Result<(), &'static str>)
        requires
            old(self).wf(),
        ensures
            final(self).wf(),
            final(self).spec_pool_size() == old(self).spec_pool_size(),
            handle.index >= old(self).spec_pool_size() ==> r == Err::<(), &'static str>("Invalid material instance handle")
                && final(self).slot_pool() == old(self).slot_pool(),
            handle.index < old(self).spec_pool_size() && !old(self).handle_valid(handle) ==>
                r == Err::<(), &'static str>("Material instance handle is stale or not allocated")
                && final(self).slot_pool() == old(self).slot_pool(),
            old(self).handle_valid(handle) ==> {
                let sp0 = old(self).slot_pool();
                let sp1 = final(self).slot_pool();
                &&& r is Ok
                &&& sp1.free_seq() == sp0.free_seq().push(handle.index)
                &&& sp1.slots() == sp0.slots().update(
                    handle.index as int,
                    GenerationalSlot { allocated: false, ..sp0.slots()[handle.index as int] },
                )
            },
    {
        if handle.index as usize >= self.pool_size {
            return Err("Invalid material instance handle");
        }
        match self.slots.deallocate(handle.index, handle.generation) {
            Ok(()) => Ok(()),
            Err(_) => Err("Material instance handle is stale or not allocated"),
        }
    }

    /// The base material and properties a handle refers to, while it is honoured.
    pub fn get_material_instance(&self, handle: MaterialInstanceHandle) -> (r: Option<(&M, &Q)>)
        requires
            self.wf(),
        ensures
            self.handle_valid(handle) ==> (r matches Some((m, q))
                && *m == self.slot_pool().slots()[handle.index as int].resource.base_material
                && *q == self.slot_pool().slots()[handle.index as int].resource.material_properties),
            !self.handle_valid(handle) ==> r is None,
    {
        match self.slots.get(handle.index, handle.generation) {
            Some(e) => Some((&e.base_material, &e.material_properties)),
            None => None,
        }
    }

    /// Replace the properties of a material instance.  Fails like `deallocate` when
    /// the handle is not honoured.
    pub fn update_properties(&mut self, handle: MaterialInstanceHandle, properties: Q) -> (r: Result<(), &'static str>)
        requires
            old(self).wf(),
        ensures
            final(self).wf(),
            final(self).spec_pool_size() == old(self).spec_pool_size(),
            handle.index >= old(self).spec_pool_size() ==> r == Err::<(), &'static str>("Invalid material instance handle")
                && final(self).slot_pool() == old(self).slot_pool(),
            handle.index < old(self).spec_pool_size() && !old(self).handle_valid(handle) ==>
                r == Err::<(), &'static str>("Material instance handle is stale or not allocated")
                && final(self).slot_pool() == old(self).slot_pool(),
            old(self).handle_valid(handle) ==> {
                let sp0 = old(self).slot_pool();
                let sp1 = final(self).slot_pool();
                let slot = sp0.slots()[handle.index as int];
                &&& r is Ok
                &&& sp1.free_seq() == sp0.free_seq()
                &&& sp1.slots() == sp0.slots().update(
                    handle.index as int,
                    GenerationalSlot {
                        resource: MaterialInstanceEntry {
                            base_material: slot.resource.base_material,
                            material_properties: properties,
                        },
                        ..slot
                    },
                )
            },
    {
        if handle.index as usize >= self.pool_size {
            return Err("Invalid material instance handle");
        }
        proof {
            self.slots.lemma_wf();
        }
        let valid = match self.slots.get(handle.index, handle.generation) {
            Some(_) => true,
            None => false,
        };
        if !valid {
            return Err("Material instance handle is stale or not allocated");
        }
        let entry = self.slots.resource_mut(handle.index);
        entry.material_properties = properties;
        Ok(())
    }

    /// Number of free material instances.
    pub fn available_count(&self) -> (n: usize)
        ensures
            n == self.slot_pool().free_seq().len(),
    {
        self.slots.available_count()
    }

    /// Number of material instances.
    pub fn total_count(&self) -> (n: usize)
        ensures
            n == self.spec_pool_size(),
    {
        self.pool_size
    }
}

impl<M: Default, Q: Default> MaterialInstancePool<M, Q> {
    /// Create `pool_size` free placeholder slots at generation 0.
    pub fn new(pool_size: usize) -> (p: Self)
        requires
            pool_size <= 0x1_0000_0000,
        ensures
            p.wf(),
            p.spec_pool_size() == pool_size,
            p.slot_pool().free_seq() == Seq::new(pool_size as nat, |i: int| i as u32),
            forall|i: int| 0 <= i < pool_size ==> {
                &&& !(#[trigger] p.slot_pool().slots()[i]).allocated
                &&& p.slot_pool().slots()[i].generation == 0
            },
    {
        let mut entries: Vec<MaterialInstanceEntry<M, Q>> = Vec::with_capacity(pool_size);
        let mut i: usize = 0;
        while i < pool_size
            invariant
                i <= pool_size,
                entries@.len() == i,
            decreases pool_size - i,
        {
            entries.push(MaterialInstanceEntry { base_material: M::default(), material_properties: Q::default() });
            i = i + 1;
        }
        MaterialInstancePool { slots: SlotPool::new(entries), pool_size }
    }
}

/// Usage counters of the resource pools.
#[derive(Debug, Clone, Copy, PartialEq, Eq, Structural)]
pub struct PoolStats {
    /// Number of buffers currently allocated
    pub buffers_allocated: usize,
    /// Number of descriptor sets currently allocated
    pub descriptor_sets_allocated: usize,
    /// Number of material instances currently allocated
    pub material_instances_allocated: usize,
    /// Largest number of buffers allocated at once
    pub peak_buffers: usize,
    /// Largest number of descriptor sets allocated at once
    pub peak_descriptor_sets: usize,
    /// Largest number of material instances allocated at once
    pub peak_material_instances: usize,
}

/// Buffer, descriptor set and material instance pools of one size, with usage counters.
pub struct DynamicResourcePool<M, Q> {
    buffer_pool: BufferPool,
    descriptor_set_pool: DescriptorSetPool,
    material_instance_pool: MaterialInstancePool<M, Q>,
    pool_size: usize,
    stats: PoolStats,
}

/// Number of buffers allocated over all frames in flight.
pub open spec fn buffers_in_use(bp: BufferPool) -> int {
    2 * bp.spec_pool_size() - bp.frame_pools()[0].free_seq().len() - bp.frame_pools()[1].free_seq().len()
}

impl<M, Q> DynamicResourcePool<M, Q> {
    /// The buffer pool.
    pub closed spec fn buffers(&self) -> BufferPool {
        self.buffer_pool
    }

    /// The descriptor set pool.
    pub closed spec fn descriptor_sets(&self) -> DescriptorSetPool {
        self.descriptor_set_pool
    }

    /// The material instance pool.
    pub closed spec fn material_instances(&self) -> MaterialInstancePool<M, Q> {
        self.material_instance_pool
    }

    /// The common pool size.
    pub closed spec fn spec_pool_size(&self) -> nat {
        self.pool_size as nat
    }

    /// The counters.
    pub closed spec fn spec_stats(&self) -> PoolStats {
        self.stats
    }

    /// All three pools are consistent and have `pool_size` slots, and the counters of
    /// allocated resources match the pools.
    pub closed spec fn wf(&self) -> bool {
        &&& self.buffer_pool.wf()
        &&& self.descriptor_set_pool.wf()
        &&& self.material_instance_pool.wf()
        &&& self.buffer_pool.spec_pool_size() == self.pool_size
        &&& self.descriptor_set_pool.spec_pool_size() == self.pool_size
        &&& self.material_instance_pool.spec_pool_size() == self.pool_size
        &&& 2 * self.pool_size < usize::MAX
        &&& self.stats.buffers_allocated == buffers_in_use(self.buffer_pool)
        &&& self.stats.descriptor_sets_allocated == self.descriptor_set_pool.slot_pool().allocated_count()
        &&& self.stats.material_instances_allocated == self.material_instance_pool.slot_pool().allocated_count()
    }

    /// Combine freshly created pools of one size; all counters start at zero.
    pub fn new(
        pool_size: usize,
        buffer_pool: BufferPool,
        descriptor_set_pool: DescriptorSetPool,
        material_instance_pool: MaterialInstancePool<M, Q>,
    ) -> (p: Self)
        requires
            2 * pool_size < usize::MAX,
            buffer_pool.wf(),
            descriptor_set_pool.wf(),
            material_instance_pool.wf(),
            buffer_pool.spec_pool_size() == pool_size,
            descriptor_set_pool.spec_pool_size() == pool_size,
            material_instance_pool.spec_pool_size() == pool_size,
            buffer_pool.frame_pools()[0].free_seq().len() == pool_size,
            buffer_pool.frame_pools()[1].free_seq().len() == pool_size,
            descriptor_set_pool.slot_pool().free_seq().len() == pool_size,
            material_instance_pool.slot_pool().free_seq().len() == pool_size,
        ensures
            p.wf(),
            p.buffers() == buffer_pool,
            p.descriptor_sets() == descriptor_set_pool,
            p.material_instances() == material_instance_pool,
            p.spec_pool_size() == pool_size,
            p.spec_stats() == (PoolStats {
                buffers_allocated: 0,
                descriptor_sets_allocated: 0,
                material_instances_allocated: 0,
                peak_buffers: 0,
                peak_descriptor_sets: 0,
                peak_material_instances: 0,
            }),
    {
        DynamicResourcePool {
            buffer_pool,
            descriptor_set_pool,
            material_instance_pool,
            pool_size,
            stats: PoolStats {
                buffers_allocated: 0,
                descriptor_sets_allocated: 0,
                material_instances_allocated: 0,
                peak_buffers: 0,
                peak_descriptor_sets: 0,
                peak_material_instances: 0,
            },
        }
    }

    /// Allocate a uniform buffer of a frame and count it.
    pub fn allocate_buffer(&mut self, frame_index: usize) -> (r: Option<BufferHandle>)
        requires
            old(self).wf(),
            frame_index < FRAMES_IN_FLIGHT ==> {
                let fp = old(self).buffers().frame_pools()[frame_index as int];
                fp.free_seq().len() > 0 ==> fp.slots()[fp.free_seq()[0] as int].generation < u32::MAX
            },
        ensures
            final(self).wf(),
            final(self).spec_pool_size() == old(self).spec_pool_size(),
            final(self).descriptor_sets() == old(self).descriptor_sets(),
            final(self).material_instances() == old(self).material_instances(),
            r is None ==> final(self).spec_stats() == old(self).spec_stats(),
            r is Some ==> final(self).spec_stats() == (PoolStats {
                buffers_allocated: (old(self).spec_stats().buffers_allocated + 1) as usize,
                peak_buffers: if old(self).spec_stats().peak_buffers > old(self).spec_stats().buffers_allocated + 1 {
                    old(self).spec_stats().peak_buffers
                } else {
                    (old(self).spec_stats().buffers_allocated + 1) as usize
                },
                ..old(self).spec_stats()
            }),
            r == (if frame_index < FRAMES_IN_FLIGHT && old(self).buffers().frame_pools()[frame_index as int].free_seq().len() > 0 {
                let fp = old(self).buffers().frame_pools()[frame_index as int];
                let index = fp.free_seq()[0];
                Some(BufferHandle { index, generation: (fp.slots()[index as int].generation + 1) as u32, frame: frame_index })
            } else {
                None
            }),
    {
        proof {
            self.lemma_counts();
        }
        let handle = match self.buffer_pool.allocate(frame_index) {
            Some(h) => h,
            None => {
                return None;
            },
        };
        proof {
            self.buffer_pool.lemma_frames();
        }
        self.stats.buffers_allocated = self.stats.buffers_allocated + 1;
        self.stats.peak_buffers = if self.stats.peak_buffers > self.stats.buffers_allocated {
            self.stats.peak_buffers
        } else {
            self.stats.buffers_allocated
        };
        Some(handle)
    }

    /// Release a uniform buffer and count it.
    pub fn deallocate_buffer(&mut self, handle: BufferHandle) -> (r: Result<(), &'static str>)
        requires
            old(self).wf(),
        ensures
            final(self).wf(),
            final(self).spec_pool_size() == old(self).spec_pool_size(),
            final(self).descriptor_sets() == old(self).descriptor_sets(),
            final(self).material_instances() == old(self).material_instances(),
            old(self).buffers().handle_valid(handle) <==> r is Ok,
            r is Err ==> final(self).spec_stats() == old(self).spec_stats()
                && final(self).buffers().frame_pools() == old(self).buffers().frame_pools(),
            r is Ok ==> final(self).spec_stats() == (PoolStats {
                buffers_allocated: (old(self).spec_stats().buffers_allocated - 1) as usize,
                ..old(self).spec_stats()
            }),
            (handle.frame >= FRAMES_IN_FLIGHT || handle.index >= old(self).spec_pool_size()) ==>
                r == Err::<(), &'static str>("Invalid buffer handle"),
            (handle.frame < FRAMES_IN_FLIGHT && handle.index < old(self).spec_pool_size()
                && !old(self).buffers().handle_valid(handle)) ==>
                r == Err::<(), &'static str>("Buffer handle is stale or not allocated"),
    {
        proof {
            self.lemma_counts();
        }
        match self.buffer_pool.deallocate(handle) {
            Ok(()) => {},
            Err(e) => {
                return Err(e);
            },
        }
        proof {
            self.buffer_pool.lemma_frames();
            old(self).buffer_pool.lemma_frames();
        }
        self.stats.buffers_allocated = self.stats.buffers_allocated.saturating_sub(1);
        Ok(())
    }

    /// Allocate a descriptor set and count it.
    pub fn allocate_descriptor_set(&mut self, material_type: u32, descriptor_set: vk::DescriptorSet) -> (r: Option<DescriptorSetHandle>)
        requires
            old(self).wf(),
            old(self).descriptor_sets().slot_pool().free_seq().len() > 0 ==>
                old(self).descriptor_sets().slot_pool().slots()[old(self).descriptor_sets().slot_pool().free_seq()[0] as int].generation < u32::MAX,
        ensures
            final(self).wf(),
            final(self).spec_pool_size() == old(self).spec_pool_size(),
            final(self).buffers() == old(self).buffers(),
            final(self).material_instances() == old(self).material_instances(),
            r is None ==> final(self).spec_stats() == old(self).spec_stats(),
            r is Some ==> final(self).spec_stats() == (PoolStats {
                descriptor_sets_allocated: (old(self).spec_stats().descriptor_sets_allocated + 1) as usize,
                peak_descriptor_sets: if old(self).spec_stats().peak_descriptor_sets > old(self).spec_stats().descriptor_sets_allocated + 1 {
                    old(self).spec_stats().peak_descriptor_sets
                } else {
                    (old(self).spec_stats().descriptor_sets_allocated + 1) as usize
                },
                ..old(self).spec_stats()
            }),
            r == (if old(self).descriptor_sets().slot_pool().free_seq().len() > 0 {
                let sp = old(self).descriptor_sets().slot_pool();
                let index = sp.free_seq()[0];
                Some(DescriptorSetHandle { index, generation: (sp.slots()[index as int].generation + 1) as u32, material_type })
            } else {
                None
            }),
    {
        proof {
            self.lemma_counts();
        }
        let handle = match self.descriptor_set_pool.allocate(material_type, descriptor_set) {
            Some(h) => h,
            None => {
                return None;
            },
        };
        proof {
            self.descriptor_set_pool.slot_pool().lemma_wf();
            old(self).descriptor_set_pool.slot_pool().lemma_wf();
            assert(old(self).descriptor_set_pool.slot_pool().free_seq().len() > 0);
            assert(self.descriptor_set_pool.slot_pool().free_seq().len() + 1 == old(self).descriptor_set_pool.slot_pool().free_seq().len());
        }
        self.stats.descriptor_sets_allocated = self.stats.descriptor_sets_allocated + 1;
        self.stats.peak_descriptor_sets = if self.stats.peak_descriptor_sets > self.stats.descriptor_sets_allocated {
            self.stats.peak_descriptor_sets
        } else {
            self.stats.descriptor_sets_allocated
        };
        Some(handle)
    }

    /// Release a descriptor set and count it.
    pub fn deallocate_descriptor_set(&mut self, handle: DescriptorSetHandle) -> (r: Result<(), &'static str>)
        requires
            old(self).wf(),
        ensures
            final(self).wf(),
            final(self).spec_pool_size() == old(self).spec_pool_size(),
            final(self).buffers() == old(self).buffers(),
            final(self).material_instances() == old(self).material_instances(),
            old(self).descriptor_sets().handle_valid(handle) <==> r is Ok,
            r is Err ==> final(self).spec_stats() == old(self).spec_stats()
                && final(self).descriptor_sets().slot_pool() == old(self).descriptor_sets().slot_pool(),
            r is Ok ==> final(self).spec_stats() == (PoolStats {
                descriptor_sets_allocated: (old(self).spec_stats().descriptor_sets_allocated - 1) as usize,
                ..old(self).spec_stats()
            }),
            handle.index >= old(self).spec_pool_size() ==> r == Err::<(), &'static str>("Invalid descriptor set handle"),
            handle.index < old(self).spec_pool_size() && !old(self).descriptor_sets().handle_valid(handle) ==>
                r == Err::<(), &'static str>("Descriptor set handle is stale or not allocated"),
    {
        proof {
            self.lemma_counts();
        }
        match self.descriptor_set_pool.deallocate(handle) {
            Ok(()) => {},
            Err(e) => {
                return Err(e);
            },
        }
        proof {
            self.descriptor_set_pool.slot_pool().lemma_wf();
        }
        self.stats.descriptor_sets_allocated = self.stats.descriptor_sets_allocated.saturating_sub(1);
        Ok(())
    }

    /// Allocate a material instance and count it.
    pub fn allocate_material_instance(&mut self, base_material: M, properties: Q) -> (r: Option<MaterialInstanceHandle>)
        requires
            old(self).wf(),
            old(self).material_instances().slot_pool().free_seq().len() > 0 ==>
                old(self).material_instances().slot_pool().slots()[old(self).material_instances().slot_pool().free_seq()[0] as int].generation < u32::MAX,
        ensures
            final(self).wf(),
            final(self).spec_pool_size() == old(self).spec_pool_size(),
            final(self).buffers() == old(self).buffers(),
            final(self).descriptor_sets() == old(self).descriptor_sets(),
            r is None ==> final(self).spec_stats() == old(self).spec_stats(),
            r is Some ==> final(self).spec_stats() == (PoolStats {
                material_instances_allocated: (old(self).spec_stats().material_instances_allocated + 1) as usize,
                peak_material_instances: if old(self).spec_stats().peak_material_instances > old(self).spec_stats().material_instances_allocated + 1 {
                    old(self).spec_stats().peak_material_instances
                } else {
                    (old(self).spec_stats().material_instances_allocated + 1) as usize
                },
                ..old(self).spec_stats()
            }),
            r == (if old(self).material_instances().slot_pool().free_seq().len() > 0 {
                let sp = old(self).material_instances().slot_pool();
                let index = sp.free_seq()[0];
                Some(MaterialInstanceHandle { index, generation: (sp.slots()[index as int].generation + 1) as u32 })
            } else {
                None
            }),
    {
        proof {
            self.lemma_counts();
        }
        let handle = match self.material_instance_pool.allocate(base_material, properties) {
            Some(h) => h,
            None => {
                return None;
            },
        };
        proof {
            self.material_instance_pool.slot_pool().lemma_wf();
            old(self).material_instance_pool.slot_pool().lemma_wf();
            assert(old(self).material_instance_pool.slot_pool().free_seq().len() > 0);
            assert(self.material_instance_pool.slot_pool().free_seq().len() + 1 == old(self).material_instance_pool.slot_pool().free_seq().len());
        }
        self.stats.material_instances_allocated = self.stats.material_instances_allocated + 1;
        self.stats.peak_material_instances = if self.stats.peak_material_instances > self.stats.material_instances_allocated {
            self.stats.peak_material_instances
        } else {
            self.stats.material_instances_allocated
        };
        Some(handle)
    }

    /// Release a material instance and count it.
    pub fn deallocate_material_instance(&mut self, handle: MaterialInstanceHandle) -> (r: Result<(), &'static str>)
        requires
            old(self).wf(),
        ensures
            final(self).wf(),
            final(self).spec_pool_size() == old(self).spec_pool_size(),
            final(self).buffers() == old(self).buffers(),
            final(self).descriptor_sets() == old(self).descriptor_sets(),
            old(self).material_instances().handle_valid(handle) <==> r is Ok,
            r is Err ==> final(self).spec_stats() == old(self).spec_stats()
                && final(self).material_instances().slot_pool() == old(self).material_instances().slot_pool(),
            r is Ok ==> final(self).spec_stats() == (PoolStats {
                material_instances_allocated: (old(self).spec_stats().material_instances_allocated - 1) as usize,
                ..old(self).spec_stats()
            }),
            handle.index >= old(self).spec_pool_size() ==> r == Err::<(), &'static str>("Invalid material instance handle"),
            handle.index < old(self).spec_pool_size() && !old(self).material_instances().handle_valid(handle) ==>
                r == Err::<(), &'static str>("Material instance handle is stale or not allocated"),
    {
        proof {
            self.lemma_counts();
        }
        match self.material_instance_pool.deallocate(handle) {
            Ok(()) => {},
            Err(e) => {
                return Err(e);
            },
        }
        proof {
            self.material_instance_pool.slot_pool().lemma_wf();
        }
        self.stats.material_instances_allocated = self.stats.material_instances_allocated.saturating_sub(1);
        Ok(())
    }

    /// The buffer a handle refers to, while the handle is honoured.
    pub fn get_buffer(&self, handle: BufferHandle) -> (r: Option<vk::Buffer>)
        requires
            self.wf(),
        ensures
            r == (if self.buffers().handle_valid(handle) {
                Some(self.buffers().frame_pools()[handle.frame as int].slots()[handle.index as int].resource)
            } else {
                None
            }),
    {
        self.buffer_pool.get_buffer(handle)
    }

    /// The check made before writing into a pooled buffer (see
    /// [`BufferPool::check_write_target`]).
    pub fn check_write_target(&self, handle: BufferHandle) -> (r: Result<vk::Buffer, VulkanError>)
        requires
            self.wf(),
        ensures
            self.buffers().handle_valid(handle) ==> r == Ok::<vk::Buffer, VulkanError>(
                self.buffers().frame_pools()[handle.frame as int].slots()[handle.index as int].resource,
            ),
            !self.buffers().handle_valid(handle) ==> r is Err,
    {
        self.buffer_pool.check_write_target(handle)
    }

    /// The descriptor set a handle refers to, while the handle is honoured.
    pub fn get_descriptor_set(&self, handle: DescriptorSetHandle) -> (r: Option<vk::DescriptorSet>)
        requires
            self.wf(),
        ensures
            r == (if self.descriptor_sets().handle_valid(handle) {
                Some(self.descriptor_sets().slot_pool().slots()[handle.index as int].resource.descriptor_set)
            } else {
                None
            }),
    {
        self.descriptor_set_pool.get_descriptor_set(handle)
    }

    /// The base material and properties a handle refers to, while it is honoured.
    pub fn get_material_instance(&self, handle: MaterialInstanceHandle) -> (r: Option<(&M, &Q)>)
        requires
            self.wf(),
        ensures
            self.material_instances().handle_valid(handle) ==> (r matches Some((m, q))
                && *m == self.material_instances().slot_pool().slots()[handle.index as int].resource.base_material
                && *q == self.material_instances().slot_pool().slots()[handle.index as int].resource.material_properties),
            !self.material_instances().handle_valid(handle) ==> r is None,
    {
        self.material_instance_pool.get_material_instance(handle)
    }

    /// Replace the properties of a material instance.
    pub fn update_material_properties(&mut self, handle: MaterialInstanceHandle, properties: Q) -> (r: Result<(), &'static str>)
        requires
            old(self).wf(),
        ensures
            final(self).wf(),
            final(self).spec_pool_size() == old(self).spec_pool_size(),
            final(self).buffers() == old(self).buffers(),
            final(self).descriptor_sets() == old(self).descriptor_sets(),
            final(self).spec_stats() == old(self).spec_stats(),
            old(self).material_instances().handle_valid(handle) <==> r is Ok,
            r is Err ==> final(self).material_instances().slot_pool() == old(self).material_instances().slot_pool(),
            r is Ok ==> {
                let sp0 = old(self).material_instances().slot_pool();
                let sp1 = final(self).material_instances().slot_pool();
                let slot = sp0.slots()[handle.index as int];
                &&& sp1.free_seq() == sp0.free_seq()
                &&& sp1.slots() == sp0.slots().update(
                    handle.index as int,
                    GenerationalSlot {
                        resource: MaterialInstanceEntry {
                            base_material: slot.resource.base_material,
                            material_properties: properties,
                        },
                        ..slot
                    },
                )
            },
    {
        let r = self.material_instance_pool.update_properties(handle, properties);
        proof {
            self.material_instance_pool.slot_pool().lemma_wf();
            old(self).material_instance_pool.slot_pool().lemma_wf();
        }
        r
    }

    /// The counters.
    pub fn get_stats(&self) -> (r: &PoolStats)
        ensures
            *r == self.spec_stats(),
    {
        &self.stats
    }

    /// Free buffers of a frame, free descriptor sets and free material instances.
    pub fn get_availability(&self, frame_index: usize) -> (r: (usize, usize, usize))
        requires
            self.wf(),
        ensures
            r.0 == (if frame_index < FRAMES_IN_FLIGHT {
                self.buffers().frame_pools()[frame_index as int].free_seq().len()
            } else {
                0
            }),
            r.1 == self.descriptor_sets().slot_pool().free_seq().len(),
            r.2 == self.material_instances().slot_pool().free_seq().len(),
    {
        (
            self.buffer_pool.available_count(frame_index),
            self.descriptor_set_pool.available_count(),
            self.material_instance_pool.available_count(),
        )
    }

    /// Which pools have fewer free resources than `threshold` (the caller derives the
    /// threshold from a percentage of the pool size).
    pub fn is_low_on_resources(&self, frame_index: usize, threshold: usize) -> (r: (bool, bool, bool))
        requires
            self.wf(),
        ensures
            r.0 == ((if frame_index < FRAMES_IN_FLIGHT {
                self.buffers().frame_pools()[frame_index as int].free_seq().len()
            } else {
                0
            }) < threshold),
            r.1 == (self.descriptor_sets().slot_pool().free_seq().len() < threshold),
            r.2 == (self.material_instances().slot_pool().free_seq().len() < threshold),
    {
        (
            self.buffer_pool.available_count(frame_index) < threshold,
            self.descriptor_set_pool.available_count() < threshold,
            self.material_instance_pool.available_count() < threshold,
        )
    }

    proof fn lemma_counts(&self)
        requires
            self.wf(),
        ensures
            self.stats.buffers_allocated + 1 <= usize::MAX,
            self.stats.descriptor_sets_allocated + 1 <= usize::MAX,
            self.stats.material_instances_allocated + 1 <= usize::MAX,
            self.stats.buffers_allocated <= 2 * self.pool_size,
            self.stats.descriptor_sets_allocated <= self.pool_size,
            self.stats.material_instances_allocated <= self.pool_size,
    {
        self.buffer_pool.lemma_frames();
        self.descriptor_set_pool.slot_pool().lemma_wf();
        self.material_instance_pool.slot_pool().lemma_wf();
    }
}

} // verus!
