//! Generation-checked slot bookkeeping shared by the GPU resource pools.
//!
//! Each slot carries a resource, a generation counter and an `allocated` flag.  A slot
//! is on the free list exactly when it is not allocated.  Allocation bumps the
//! generation and returns it; a handle (index, generation) is honoured only while its
//! slot is allocated and still has that generation, so releasing twice is refused.

use std::collections::VecDeque;
use vstd::prelude::*;

verus! {

/// Why a handle was refused.
#[derive(Debug, Clone, Copy, PartialEq, Eq, Structural)]
pub enum SlotError {
    /// The index lies outside the pool
    OutOfRange,
    /// The slot is not allocated or has another generation
    Stale,
}

/// One slot of a resource pool.
pub struct GenerationalSlot<R> {
    /// Resource stored in the slot
    pub resource: R,
    /// Generation counter, bumped on each allocation
    pub generation: u32,
    /// Whether the slot is currently handed out
    pub allocated: bool,
}

/// Slots `0..pool_size` with a FIFO list of the free ones.
pub struct SlotPool<R> {
    entries: Vec<GenerationalSlot<R>>,
    free_list: VecDeque<u32>,
    pool_size: usize,
}

impl<R> SlotPool<R> {
    /// The slots, by index.
    pub closed spec fn slots(&self) -> Seq<GenerationalSlot<R>> {
        self.entries@
    }

    /// The free list, front first.
    pub closed spec fn free_seq(&self) -> Seq<u32> {
        self.free_list@
    }

    /// The number of slots.
    pub closed spec fn size(&self) -> nat {
        self.pool_size as nat
    }

    /// Internal consistency: one entry per slot, slot indices fit in `u32`, and the free
    /// list holds, once each, exactly the slots that are not allocated.
    pub closed spec fn wf(&self) -> bool {
        &&& self.entries@.len() == self.pool_size
        &&& self.pool_size <= 0x1_0000_0000
        &&& self.free_list@.no_duplicates()
        &&& forall|k: int| 0 <= k < self.free_list@.len() ==> (#[trigger] self.free_list@[k] as int) < self.pool_size
        &&& forall|i: int| 0 <= i < self.pool_size ==>
            (self.free_list@.contains(i as u32) <==> !(#[trigger] self.entries@[i]).allocated)
    }

    /// Whether `(index, generation)` names an allocated slot that still has that generation.
    pub open spec fn slot_valid(&self, index: u32, generation: u32) -> bool {
        &&& (index as int) < self.size()
        &&& self.slots()[index as int].allocated
        &&& self.slots()[index as int].generation == generation
    }

    /// Number of allocated slots.
    pub open spec fn allocated_count(&self) -> nat {
        (self.size() - self.free_seq().len()) as nat
    }


    /// The state change and result of `allocate`: the front free slot becomes allocated
    /// with its generation bumped, and is returned with that generation.
    pub open spec fn allocate_post(p0: Self, p1: Self, r: Option<(u32, u32)>) -> bool {
        &&& p1.size() == p0.size()
        &&& p0.free_seq().len() == 0 ==> r is None && p1.slots() == p0.slots() && p1.free_seq() == p0.free_seq()
        &&& p0.free_seq().len() > 0 ==> {
            let index = p0.free_seq()[0];
            let slot = p0.slots()[index as int];
            let generation = (slot.generation + 1) as u32;
            &&& r == Some((index, generation))
            &&& p1.free_seq() == p0.free_seq().subrange(1, p0.free_seq().len() as int)
            &&& p1.slots() == p0.slots().update(
                index as int,
                GenerationalSlot { resource: slot.resource, generation, allocated: true },
            )
        }
    }

    /// The state change and result of `deallocate`: an honoured handle's slot becomes
    /// free and goes to the back of the free list; otherwise nothing changes and the
    /// reason is returned.
    pub open spec fn deallocate_post(p0: Self, p1: Self, index: u32, generation: u32, r: Result<(), SlotError>) -> bool {
        &&& p1.size() == p0.size()
        &&& (index as int) >= p0.size() ==> r == Err::<(), SlotError>(SlotError::OutOfRange) && p1 == p0
        &&& (index as int) < p0.size() && !p0.slot_valid(index, generation) ==>
            r == Err::<(), SlotError>(SlotError::Stale) && p1 == p0
        &&& p0.slot_valid(index, generation) ==> {
            &&& r is Ok
            &&& p1.free_seq() == p0.free_seq().push(index)
            &&& p1.slots() == p0.slots().update(
                index as int,
                GenerationalSlot { allocated: false, ..p0.slots()[index as int] },
            )
        }
    }

    /// What a well-formed slot pool holds: one slot per index, a free list of distinct
    /// in-range indices, and an index on the free list exactly when its slot is free.
    pub proof fn lemma_wf(&self)
        requires
            self.wf(),
        ensures
            self.slots().len() == self.size(),
            self.size() <= 0x1_0000_0000,
            self.free_seq().no_duplicates(),
            self.free_seq().len() <= self.size(),
            forall|k: int| 0 <= k < self.free_seq().len() ==> (#[trigger] self.free_seq()[k] as int) < self.size(),
            forall|i: int| 0 <= i < self.size() ==>
                (self.free_seq().contains(i as u32) <==> !(#[trigger] self.slots()[i]).allocated),
    {
        let f = self.free_list@.map_values(|x: u32| x as usize);
        assert forall|a: int, b: int| 0 <= a < f.len() && 0 <= b < f.len() && a != b implies f[a] != f[b] by {
            assert(self.free_list@[a] != self.free_list@[b]);
        }
        assert forall|k: int| 0 <= k < f.len() implies (#[trigger] f[k] as nat) < self.pool_size by {
            assert((self.free_list@[k] as int) < self.pool_size);
        }
        crate::object_pool::lemma_distinct_indices_len(f, self.pool_size as nat);
    }

    /// Create `pool_size` free slots at generation 0 holding the given resources; the free
    /// list hands them out in increasing index order.
    pub fn new(resources: Vec<R>) -> (p: Self)
        requires
            resources@.len() <= 0x1_0000_0000,
        ensures
            p.wf(),
            p.size() == resources@.len(),
            p.free_seq() == Seq::new(resources@.len(), |i: int| i as u32),
            forall|i: int| 0 <= i < resources@.len() ==> #[trigger] p.slots()[i] == (GenerationalSlot {
                resource: resources@[i],
                generation: 0,
                allocated: false,
            }),
    {
        let pool_size = resources.len();
        let mut entries: Vec<GenerationalSlot<R>> = Vec::with_capacity(pool_size);
        let mut free_list: VecDeque<u32> = VecDeque::with_capacity(pool_size);
        let mut resources = resources;
        let ghost res0 = resources@;
        let mut rest: Vec<R> = Vec::new();
        // Move the resources out in order: reverse into `rest`, then pop from its back.
        while resources.len() > 0
            invariant
                resources@ + rest@.reverse() == res0,
            decreases resources@.len(),
        {
            let ghost before = resources@;
            let x = resources.pop().unwrap();
            proof {
                assert(rest@.push(x).reverse() =~= seq![x] + rest@.reverse());
                assert(before =~= resources@.push(x));
            }
            rest.push(x);
            assert(resources@ + rest@.reverse() =~= res0);
        }
        assert(rest@.reverse() =~= res0);
        let mut index: usize = 0;
        while index < pool_size
            invariant
                index <= pool_size,
                pool_size == res0.len(),
                pool_size <= 0x1_0000_0000,
                rest@.len() == pool_size - index,
                forall|k: int| 0 <= k < rest@.len() ==> #[trigger] rest@[k] == res0[pool_size - 1 - k],
                entries@.len() == index,
                free_list@ == Seq::new(index as nat, |i: int| i as u32),
                forall|i: int| 0 <= i < index ==> #[trigger] entries@[i] == (GenerationalSlot {
                    resource: res0[i],
                    generation: 0,
                    allocated: false,
                }),
            decreases pool_size - index,
        {
            let r = rest.pop().unwrap();
            entries.push(GenerationalSlot { resource: r, generation: 0, allocated: false });
            free_list.push_back(index as u32);
            index = index + 1;
            assert(free_list@ =~= Seq::new(index as nat, |i: int| i as u32));
        }
        let p = SlotPool { entries, free_list, pool_size };
        proof {
            let f = p.free_list@;
            assert forall|i: int| 0 <= i < pool_size implies (p.free_list@.contains(i as u32) <==> !(#[trigger] p.entries@[i]).allocated) by {
                assert(f[i] == i as u32);
            }
        }
        p
    }

    /// Take the front slot of the free list: mark it allocated and bump its generation.
    /// Returns its index and new generation, or `None` when no slot is free.
    pub fn allocate(&mut self) -> (r: Option<(u32, u32)>)
        requires
            old(self).wf(),
            old(self).free_seq().len() > 0 ==>
                old(self).slots()[old(self).free_seq()[0] as int].generation < u32::MAX,
        ensures
            final(self).wf(),
            Self::allocate_post(*old(self), *final(self), r),
    {
        let ghost free0 = self.free_list@;
        if let Some(index) = self.free_list.pop_front() {
            assert((index as int) < self.pool_size);
            let i = index as usize;
            let generation = self.entries[i].generation + 1;
            self.entries[i].allocated = true;
            self.entries[i].generation = generation;
            proof {
                let f = self.free_list@;
                assert(f =~= free0.subrange(1, free0.len() as int));
                let slot = old(self).entries@[i as int];
                assert(self.entries@ =~= old(self).entries@.update(
                    i as int,
                    GenerationalSlot { resource: slot.resource, generation, allocated: true },
                ));
                assert forall|k: int| 0 <= k < f.len() implies (#[trigger] f[k] as int) < self.pool_size by {
                    assert(f[k] == free0[k + 1]);
                }
                assert forall|j: int| 0 <= j < self.pool_size implies (f.contains(j as u32) <==> !(#[trigger] self.entries@[j]).allocated) by {
                    if j == i as int {
                        if f.contains(j as u32) {
                            let q = choose|q: int| 0 <= q < f.len() && f[q] == j as u32;
                            assert(free0[q + 1] == free0[0]);
                        }
                    } else {
                        assert(self.entries@[j] == old(self).entries@[j]);
                        if free0.contains(j as u32) {
                            let q = choose|q: int| 0 <= q < free0.len() && free0[q] == j as u32;
                            assert(q != 0);
                            assert(f[q - 1] == j as u32);
                        }
                        if f.contains(j as u32) {
                            let q = choose|q: int| 0 <= q < f.len() && f[q] == j as u32;
                            assert(free0[q + 1] == j as u32);
                        }
                    }
                }
            }
            Some((index, generation))
        } else {
            None
        }
    }

    /// Release the slot a handle names.  Fails, changing nothing, when the index is
    /// outside the pool (`OutOfRange`) or the slot is not allocated or has another
    /// generation (`Stale`).
    pub fn deallocate(&mut self, index: u32, generation: u32) -> (r: Result<(), SlotError>)
        requires
            old(self).wf(),
        ensures
            final(self).wf(),
            Self::deallocate_post(*old(self), *final(self), index, generation, r),
    {
        let i = index as usize;
        if i >= self.pool_size {
            return Err(SlotError::OutOfRange);
        }
        if !self.entries[i].allocated || self.entries[i].generation != generation {
            return Err(SlotError::Stale);
        }
        self.entries[i].allocated = false;
        self.free_list.push_back(index);
        proof {
            let f = self.free_list@;
            let free0 = old(self).free_list@;
            assert(!free0.contains(index));
            assert forall|a: int, b: int| 0 <= a < f.len() && 0 <= b < f.len() && a != b implies f[a] != f[b] by {
                if a < free0.len() && b < free0.len() {
                } else if a < free0.len() {
                    assert(free0.contains(f[a]));
                } else {
                    assert(free0.contains(f[b]));
                }
            }
            assert forall|k: int| 0 <= k < f.len() implies (#[trigger] f[k] as int) < self.pool_size by {
                if k < free0.len() {
                    assert(f[k] == free0[k]);
                }
            }
            assert forall|j: int| 0 <= j < self.pool_size implies (f.contains(j as u32) <==> !(#[trigger] self.entries@[j]).allocated) by {
                if j == i as int {
                    assert(f[f.len() - 1] == index);
                } else {
                    assert(self.entries@[j] == old(self).entries@[j]);
                    if free0.contains(j as u32) {
                        let q = choose|q: int| 0 <= q < free0.len() && free0[q] == j as u32;
                        assert(f[q] == j as u32);
                    }
                    if f.contains(j as u32) {
                        let q = choose|q: int| 0 <= q < f.len() && f[q] == j as u32;
                        if q < free0.len() {
                            assert(free0[q] == j as u32);
                        }
                    }
                }
            }
        }
        Ok(())
    }

    /// The resource in a slot a handle names, while the handle is honoured.
    pub fn get(&self, index: u32, generation: u32) -> (r: Option<&R>)
        requires
            self.wf(),
        ensures
            r == (if self.slot_valid(index, generation) {
                Some(&self.slots()[index as int].resource)
            } else {
                None
            }),
    {
        let i = index as usize;
        if i >= self.pool_size {
            return None;
        }
        let entry = &self.entries[i];
        if entry.allocated && entry.generation == generation {
            Some(&entry.resource)
        } else {
            None
        }
    }

    /// The slot at an index.
    pub fn slot(&self, index: u32) -> (r: &GenerationalSlot<R>)
        requires
            self.wf(),
            (index as int) < self.size(),
        ensures
            *r == self.slots()[index as int],
    {
        &self.entries[index as usize]
    }

    /// Mutable access to the resource of a slot; the slot's generation and allocation
    /// state stay as they are.
    pub fn resource_mut(&mut self, index: u32) -> (r: &mut R)
        requires
            old(self).wf(),
            (index as int) < old(self).size(),
        ensures
            *r == old(self).slots()[index as int].resource,
            final(self).size() == old(self).size(),
            final(self).free_seq() == old(self).free_seq(),
            final(self).slots() == old(self).slots().update(
                index as int,
                GenerationalSlot { resource: *final(r), ..old(self).slots()[index as int] },
            ),
            final(self).wf(),
    {
        &mut self.entries[index as usize].resource
    }

    /// Replace the resource of a slot.
    pub fn set_resource(&mut self, index: u32, resource: R)
        requires
            old(self).wf(),
            (index as int) < old(self).size(),
        ensures
            final(self).wf(),
            final(self).size() == old(self).size(),
            final(self).free_seq() == old(self).free_seq(),
            final(self).slots() == old(self).slots().update(
                index as int,
                GenerationalSlot { resource, ..old(self).slots()[index as int] },
            ),
    {
        self.entries[index as usize].resource = resource;
        proof {
            assert forall|j: int| 0 <= j < self.pool_size implies (self.free_list@.contains(j as u32) <==> !(#[trigger] self.entries@[j]).allocated) by {
                if j != index as int {
                    assert(self.entries@[j] == old(self).entries@[j]);
                }
            }
        }
    }

    /// Number of free slots.
    pub fn available_count(&self) -> (n: usize)
        ensures
            n == self.free_seq().len(),
    {
        self.free_list.len()
    }

    /// Number of slots.
    pub fn total_count(&self) -> (n: usize)
        ensures
            n == self.size(),
    {
        self.pool_size
    }
}

/// A released handle is refused afterwards, so releasing it a second time fails.
pub proof fn law_released_handle_refused<R>(
    p0: SlotPool<R>,
    p1: SlotPool<R>,
    index: u32,
    generation: u32,
)
    requires
        p0.wf(),
        SlotPool::deallocate_post(p0, p1, index, generation, Ok(())),
    ensures
        !p1.slot_valid(index, generation),
{
}

/// When a released slot is handed out again, it comes with a new generation: the old
/// handle stays refused and the new one is honoured.
pub proof fn law_reallocation_changes_generation<R>(
    p0: SlotPool<R>,
    p1: SlotPool<R>,
    p2: SlotPool<R>,
    index: u32,
    generation: u32,
    new_generation: u32,
)
    requires
        p0.wf(),
        p0.slot_valid(index, generation),
        p1.wf(),
        SlotPool::deallocate_post(p0, p1, index, generation, Ok(())),
        SlotPool::allocate_post(p1, p2, Some((index, new_generation))),
        generation < u32::MAX,
    ensures
        new_generation != generation,
        !p2.slot_valid(index, generation),
        p2.slot_valid(index, new_generation),
{
    p1.lemma_wf();
    assert(p1.free_seq()[0] == index);
}

/// Every successful allocation takes one slot off the free list and every successful
/// release puts one back, so the allocated count moves by exactly one.
pub proof fn law_allocated_count_tracks_calls<R>(
    p0: SlotPool<R>,
    p1: SlotPool<R>,
    p2: SlotPool<R>,
    a: (u32, u32),
    index: u32,
    generation: u32,
)
    requires
        p0.wf(),
        SlotPool::allocate_post(p0, p1, Some(a)),
        p1.wf(),
        SlotPool::deallocate_post(p1, p2, index, generation, Ok(())),
    ensures
        p1.allocated_count() == p0.allocated_count() + 1,
        p2.allocated_count() == p0.allocated_count(),
{
    p0.lemma_wf();
    p1.lemma_wf();
}

} // verus!
