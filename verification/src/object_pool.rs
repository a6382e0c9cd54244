//! Fixed-capacity object pool with a FIFO free list and per-slot generation counters.
//!
//! A slot handed out by `allocate` is identified by its index and by the generation
//! the slot had at that moment.  Releasing a slot bumps its generation (wrapping), so
//! every handle issued for the previous occupant stops being valid.

use std::collections::VecDeque;
use vstd::prelude::*;

use crate::handles::DynamicObjectHandle;

verus! {

/// The generation a slot gets when it is released: one more, wrapping at `u32::MAX`.
pub open spec fn next_generation(g: u32) -> u32 {
    if g == 0xFFFF_FFFFu32 {
        0u32
    } else {
        (g + 1) as u32
    }
}

/// The set of the `n` smallest `usize` values.
pub open spec fn index_range(n: nat) -> Set<usize> {
    Set::new(|x: usize| (x as nat) < n)
}

/// The indices below `n` form a finite set of `n` elements.
pub proof fn lemma_index_range_len(n: nat)
    requires
        n <= usize::MAX + 1,
    ensures
        index_range(n).finite(),
        index_range(n).len() == n,
    decreases n,
{
    if n == 0 {
        assert(index_range(n) =~= Set::<usize>::empty());
    } else {
        lemma_index_range_len((n - 1) as nat);
        assert(index_range(n) =~= index_range((n - 1) as nat).insert((n - 1) as usize));
    }
}

/// A sequence of distinct indices below `n` has at most `n` elements.
pub proof fn lemma_distinct_indices_len(s: Seq<usize>, n: nat)
    requires
        s.no_duplicates(),
        n <= usize::MAX + 1,
        forall|i: int| 0 <= i < s.len() ==> (#[trigger] s[i] as nat) < n,
    ensures
        s.len() <= n,
{
    s.unique_seq_to_set();
    lemma_index_range_len(n);
    assert forall|x: usize| s.to_set().contains(x) implies index_range(n).contains(x) by {
        let i = choose|i: int| 0 <= i < s.len() && s[i] == x;
        assert((s[i] as nat) < n);
    }
    vstd::set_lib::lemma_len_subset(s.to_set(), index_range(n));
}

/// The integers `0, 1, ..., n - 1` in increasing order.
pub open spec fn ascending_indices(n: nat) -> Seq<usize> {
    Seq::new(n, |i: int| i as usize)
}

/// Pool of `capacity` slots, each holding a `T`.
pub struct ObjectPool<T> {
    objects: Vec<T>,
    free_indices: VecDeque<usize>,
    /// Whether each slot is on the free list
    is_free_slot: Vec<bool>,
    generations: Vec<u32>,
    capacity: usize,
}

impl<T> ObjectPool<T> {
    /// The objects stored in the slots, by index.
    pub closed spec fn object_seq(&self) -> Seq<T> {
        self.objects@
    }

    /// The free list, front first.
    pub closed spec fn free_list(&self) -> Seq<usize> {
        self.free_indices@
    }

    /// The generation counter of each slot, by index.
    pub closed spec fn generation_seq(&self) -> Seq<u32> {
        self.generations@
    }

    /// The number of slots.
    pub closed spec fn spec_capacity(&self) -> nat {
        self.capacity as nat
    }

    /// Internal consistency: one object and one generation per slot, every free index
    /// names a slot, no slot is on the free list twice, and the per-slot free flags
    /// agree with the free list.
    pub closed spec fn wf(&self) -> bool {
        &&& self.objects@.len() == self.capacity
        &&& self.generations@.len() == self.capacity
        &&& self.is_free_slot@.len() == self.capacity
        &&& forall|i: int| 0 <= i < self.free_indices@.len() ==> #[trigger] self.free_indices@[i] < self.capacity
        &&& self.free_indices@.no_duplicates()
        &&& forall|i: int| 0 <= i < self.capacity ==> (#[trigger] self.is_free_slot@[i] <==> self.free_indices@.contains(
            i as usize,
        ))
    }

    /// Whether a handle names a slot and carries that slot's current generation.
    pub open spec fn handle_valid(&self, handle: DynamicObjectHandle) -> bool {
        &&& (handle.index as int) < self.spec_capacity()
        &&& self.generation_seq()[handle.index as int] == handle.generation
    }

    /// Whether slot `index` is on the free list.
    pub open spec fn is_free(&self, index: usize) -> bool {
        self.free_list().contains(index)
    }

    /// A well-formed pool has one object and one generation per slot, and its free
    /// list names slots only, each at most once, so it is no longer than the pool.
    pub proof fn lemma_wf(&self)
        requires
            self.wf(),
        ensures
            self.object_seq().len() == self.spec_capacity(),
            self.generation_seq().len() == self.spec_capacity(),
            forall|i: int| 0 <= i < self.free_list().len() ==> #[trigger] self.free_list()[i] < self.spec_capacity(),
            self.free_list().no_duplicates(),
            self.free_list().len() <= self.spec_capacity(),
    {
        lemma_distinct_indices_len(self.free_list(), self.spec_capacity());
    }
}

impl<T: Default + Clone> ObjectPool<T> {

    /// The state change and result of `allocate`: the front of the free list is taken
    /// and returned with its generation; nothing else changes.
    pub open spec fn allocate_post(p0: Self, p1: Self, r: Option<(usize, u32)>) -> bool {
        &&& p1.spec_capacity() == p0.spec_capacity()
        &&& p1.object_seq() == p0.object_seq()
        &&& p1.generation_seq() == p0.generation_seq()
        &&& p0.free_list().len() == 0 ==> r is None && p1.free_list() == p0.free_list()
        &&& p0.free_list().len() > 0 ==> {
            let index = p0.free_list()[0];
            &&& r == Some((index, p0.generation_seq()[index as int]))
            &&& p1.free_list() == p0.free_list().subrange(1, p0.free_list().len() as int)
        }
    }

    /// The state change of `deallocate`: for an index of a slot in use, the slot's
    /// generation is bumped, its object becomes a `T::default()` value and the index is
    /// appended to the free list; an index outside the pool, or of a slot that is
    /// already free, changes nothing.
    pub open spec fn deallocate_post(p0: Self, p1: Self, index: usize) -> bool {
        &&& p1.spec_capacity() == p0.spec_capacity()
        &&& (index >= p0.spec_capacity() || p0.is_free(index)) ==> {
            &&& p1.object_seq() == p0.object_seq()
            &&& p1.free_list() == p0.free_list()
            &&& p1.generation_seq() == p0.generation_seq()
        }
        &&& (index < p0.spec_capacity() && !p0.is_free(index)) ==> {
            &&& p1.generation_seq() == p0.generation_seq().update(
                index as int,
                next_generation(p0.generation_seq()[index as int]),
            )
            &&& p1.free_list() == p0.free_list().push(index)
            &&& p1.object_seq().len() == p0.object_seq().len()
            &&& forall|i: int| 0 <= i < p0.object_seq().len() && i != index ==>
                #[trigger] p1.object_seq()[i] == p0.object_seq()[i]
            &&& call_ensures(T::default, (), p1.object_seq()[index as int])
        }
    }
    /// Create a pool with `capacity` slots, all free, all at generation 0, each holding
    /// `T::default()`; the free list hands slots out in increasing index order.
    pub fn new(capacity: usize) -> (pool: Self)
        ensures
            pool.wf(),
            pool.spec_capacity() == capacity,
            pool.free_list() == ascending_indices(capacity as nat),
            forall|i: int| 0 <= i < capacity ==> #[trigger] pool.generation_seq()[i] == 0,
            forall|i: int| 0 <= i < capacity ==> call_ensures(T::default, (), #[trigger] pool.object_seq()[i]),
    {
        let mut objects: Vec<T> = Vec::with_capacity(capacity);
        let mut free_indices: VecDeque<usize> = VecDeque::with_capacity(capacity);
        let mut is_free_slot: Vec<bool> = Vec::with_capacity(capacity);
        let mut generations: Vec<u32> = Vec::with_capacity(capacity);
        let mut i: usize = 0;
        while i < capacity
            invariant
                i <= capacity,
                objects@.len() == i,
                generations@.len() == i,
                is_free_slot@.len() == i,
                forall|j: int| 0 <= j < i ==> #[trigger] is_free_slot@[j],
                free_indices@ == ascending_indices(i as nat),
                forall|j: int| 0 <= j < i ==> #[trigger] generations@[j] == 0,
                forall|j: int| 0 <= j < i ==> call_ensures(T::default, (), #[trigger] objects@[j]),
            decreases capacity - i,
        {
            let d = T::default();
            objects.push(d);
            free_indices.push_back(i);
            is_free_slot.push(true);
            generations.push(0);
            i = i + 1;
            assert(free_indices@ =~= ascending_indices(i as nat));
        }
        let pool = ObjectPool { objects, free_indices, is_free_slot, generations, capacity };
        assert forall|k: int| 0 <= k < pool.free_indices@.len() implies #[trigger] pool.free_indices@[k] < pool.capacity by {
            assert(pool.free_indices@[k] == ascending_indices(capacity as nat)[k]);
        }
        assert forall|k: int| 0 <= k < capacity implies (#[trigger] pool.is_free_slot@[k] <==> pool.free_indices@.contains(
            k as usize,
        )) by {
            assert(pool.free_indices@[k] == k as usize);
        }
        pool
    }

    /// Take the slot at the front of the free list; returns its index and its current
    /// generation, or `None` when no slot is free.
    pub fn allocate(&mut self) -> (r: Option<(usize, u32)>)
        requires
            old(self).wf(),
        ensures
            final(self).wf(),
            Self::allocate_post(*old(self), *final(self), r),
    {
        if let Some(index) = self.free_indices.pop_front() {
            assert(old(self).free_indices@[0] < self.capacity);
            let generation = self.generations[index];
            self.is_free_slot.set(index, false);
            proof {
                let f0 = old(self).free_indices@;
                assert(self.free_indices@ =~= f0.subrange(1, f0.len() as int));
                assert forall|k: int| 0 <= k < self.free_indices@.len() implies #[trigger] self.free_indices@[k] < self.capacity by {
                    assert(self.free_indices@[k] == f0[k + 1]);
                }
                assert forall|k: int| 0 <= k < self.capacity implies (#[trigger] self.is_free_slot@[k]
                    <==> self.free_indices@.contains(k as usize)) by {
                    if self.free_indices@.contains(k as usize) {
                        let q = choose|q: int| 0 <= q < self.free_indices@.len() && self.free_indices@[q] == k as usize;
                        assert(f0[q + 1] == k as usize);
                        assert(f0.contains(k as usize));
                        assert(k != index);
                    }
                    if k != index as int && f0.contains(k as usize) {
                        let q = choose|q: int| 0 <= q < f0.len() && f0[q] == k as usize;
                        assert(q != 0);
                        assert(self.free_indices@[q - 1] == k as usize);
                    }
                }
            }
            Some((index, generation))
        } else {
            None
        }
    }

    /// Release slot `index`: bump its generation, reset its object to `T::default()` and
    /// append the index to the free list.  An index outside the pool, or of a slot that
    /// is already free, is ignored, so a slot is never on the free list twice.
    pub fn deallocate(&mut self, index: usize)
        requires
            old(self).wf(),
        ensures
            final(self).wf(),
            Self::deallocate_post(*old(self), *final(self), index),
    {
        if index < self.capacity && !self.is_free_slot[index] {
            let g = self.generations[index];
            let next = if g == 0xFFFF_FFFFu32 { 0u32 } else { g + 1 };
            self.generations.set(index, next);
            let d = T::default();
            self.objects.set(index, d);
            self.free_indices.push_back(index);
            self.is_free_slot.set(index, true);
            proof {
                let f0 = old(self).free_indices@;
                let f1 = self.free_indices@;
                assert(f1 =~= f0.push(index));
                assert(!f0.contains(index));
                assert forall|k: int| 0 <= k < f1.len() implies #[trigger] f1[k] < self.capacity by {
                    if k < f0.len() {
                        assert(f1[k] == f0[k]);
                    }
                }
                assert forall|a: int, b: int| 0 <= a < f1.len() && 0 <= b < f1.len() && a != b implies f1[a] != f1[b] by {
                    if a < f0.len() && b < f0.len() {
                    } else if a < f0.len() {
                        assert(f0.contains(f1[a]));
                    } else {
                        assert(f0.contains(f1[b]));
                    }
                }
                assert forall|k: int| 0 <= k < self.capacity implies (#[trigger] self.is_free_slot@[k] <==> f1.contains(
                    k as usize,
                )) by {
                    if f1.contains(k as usize) && k != index as int {
                        let q = choose|q: int| 0 <= q < f1.len() && f1[q] == k as usize;
                        assert(q < f0.len());
                        assert(f0[q] == k as usize);
                    }
                    if k != index as int && f0.contains(k as usize) {
                        let q = choose|q: int| 0 <= q < f0.len() && f0[q] == k as usize;
                        assert(f1[q] == k as usize);
                    }
                    if k == index as int {
                        assert(f1[f0.len() as int] == index);
                    }
                }
            }
        }
    }

    /// The object in slot `index`, without any generation check.
    pub fn get(&self, index: usize) -> (r: Option<&T>)
        requires
            self.wf(),
        ensures
            r == (if index < self.spec_capacity() { Some(&self.object_seq()[index as int]) } else { None }),
    {
        if index < self.objects.len() {
            Some(&self.objects[index])
        } else {
            None
        }
    }

    /// Mutable access to the object in slot `index`, without any generation check.
    pub fn get_mut(&mut self, index: usize) -> (r: Option<&mut T>)
        requires
            old(self).wf(),
        ensures
            index < old(self).spec_capacity() <==> r is Some,
            r is None ==> *final(self) == *old(self),
            r matches Some(x) ==> {
                &&& *x == old(self).object_seq()[index as int]
                &&& final(self).object_seq() == old(self).object_seq().update(index as int, *final(x))
                &&& final(self).free_list() == old(self).free_list()
                &&& final(self).generation_seq() == old(self).generation_seq()
                &&& final(self).spec_capacity() == old(self).spec_capacity()
                &&& final(self).wf()
            },
    {
        if index < self.objects.len() {
            Some(&mut self.objects[index])
        } else {
            None
        }
    }

    /// The object a handle refers to, if the handle is still valid.
    pub fn get_with_handle(&self, handle: DynamicObjectHandle) -> (r: Option<&T>)
        requires
            self.wf(),
        ensures
            r == (if self.handle_valid(handle) { Some(&self.object_seq()[handle.index as int]) } else { None }),
    {
        if self.is_handle_valid(handle) {
            self.get(handle.index as usize)
        } else {
            None
        }
    }

    /// Mutable access to the object a handle refers to, if the handle is still valid.
    pub fn get_mut_with_handle(&mut self, handle: DynamicObjectHandle) -> (r: Option<&mut T>)
        requires
            old(self).wf(),
        ensures
            old(self).handle_valid(handle) <==> r is Some,
            r is None ==> *final(self) == *old(self),
            r matches Some(x) ==> {
                &&& *x == old(self).object_seq()[handle.index as int]
                &&& final(self).object_seq() == old(self).object_seq().update(handle.index as int, *final(x))
                &&& final(self).free_list() == old(self).free_list()
                &&& final(self).generation_seq() == old(self).generation_seq()
                &&& final(self).spec_capacity() == old(self).spec_capacity()
                &&& final(self).wf()
            },
    {
        if self.is_handle_valid(handle) {
            self.get_mut(handle.index as usize)
        } else {
            None
        }
    }

    /// Whether the handle names a slot whose generation still equals the handle's.
    pub fn is_handle_valid(&self, handle: DynamicObjectHandle) -> (b: bool)
        requires
            self.wf(),
        ensures
            b == self.handle_valid(handle),
    {
        let index = handle.index as usize;
        index < self.capacity && self.generations[index] == handle.generation
    }

    /// The current generation of slot `index`.
    pub fn get_generation(&self, index: usize) -> (r: Option<u32>)
        requires
            self.wf(),
        ensures
            r == (if index < self.spec_capacity() { Some(self.generation_seq()[index as int]) } else { None }),
    {
        if index < self.generations.len() {
            Some(self.generations[index])
        } else {
            None
        }
    }

    /// Number of entries on the free list.
    pub fn available_count(&self) -> (n: usize)
        ensures
            n == self.free_list().len(),
    {
        self.free_indices.len()
    }

    /// Number of slots not on the free list.
    pub fn active_count(&self) -> (n: usize)
        requires
            self.wf(),
        ensures
            n == self.spec_capacity() - self.free_list().len(),
    {
        proof {
            self.lemma_wf();
        }
        self.capacity - self.free_indices.len()
    }

    /// Total number of slots.
    pub fn capacity(&self) -> (n: usize)
        ensures
            n == self.spec_capacity(),
    {
        self.capacity
    }
}

/// Releasing a slot in use invalidates every handle issued for it before the release.
pub proof fn law_release_invalidates_handle<T: Default + Clone>(
    p0: ObjectPool<T>,
    p1: ObjectPool<T>,
    handle: DynamicObjectHandle,
)
    requires
        p0.wf(),
        p0.handle_valid(handle),
        !p0.is_free(handle.index as usize),
        ObjectPool::deallocate_post(p0, p1, handle.index as usize),
    ensures
        !p1.handle_valid(handle),
{
    p0.lemma_wf();
}

/// A slot just taken from the free list is valid under the handle made of the index
/// and generation `allocate` returned.
pub proof fn law_allocated_handle_valid<T: Default + Clone>(
    p0: ObjectPool<T>,
    p1: ObjectPool<T>,
    index: usize,
    generation: u32,
)
    requires
        p0.wf(),
        index <= 0xFFFF_FFFFusize,
        ObjectPool::allocate_post(p0, p1, Some((index, generation))),
    ensures
        p1.handle_valid(DynamicObjectHandle { index: index as u32, generation }),
{
    p0.lemma_wf();
}

/// The free list is first in, first out: in a pool with no free slot, a released slot
/// is the next one handed out, with its bumped generation.
pub proof fn law_released_slot_reused_first<T: Default + Clone>(
    p0: ObjectPool<T>,
    p1: ObjectPool<T>,
    p2: ObjectPool<T>,
    index: usize,
    r: Option<(usize, u32)>,
)
    requires
        p0.wf(),
        p0.free_list().len() == 0,
        index < p0.spec_capacity(),
        ObjectPool::deallocate_post(p0, p1, index),
        ObjectPool::allocate_post(p1, p2, r),
    ensures
        r == Some((index, next_generation(p0.generation_seq()[index as int]))),
{
    p0.lemma_wf();
    assert(p1.free_list()[0] == index);
}

/// Two successive allocations hand out different slots.
pub proof fn law_allocations_distinct<T: Default + Clone>(
    p0: ObjectPool<T>,
    p1: ObjectPool<T>,
    p2: ObjectPool<T>,
    i1: usize,
    g1: u32,
    i2: usize,
    g2: u32,
)
    requires
        p0.wf(),
        ObjectPool::allocate_post(p0, p1, Some((i1, g1))),
        ObjectPool::allocate_post(p1, p2, Some((i2, g2))),
    ensures
        i1 != i2,
{
    p0.lemma_wf();
    assert(p1.free_list()[0] == p0.free_list()[1]);
}

/// Releasing a slot that is already free changes nothing: it is not queued a second
/// time, so no two later allocations can hand it out without a release in between.
pub proof fn law_release_of_free_slot_changes_nothing<T: Default + Clone>(
    p0: ObjectPool<T>,
    p1: ObjectPool<T>,
    index: usize,
)
    requires
        p0.wf(),
        p0.is_free(index),
        ObjectPool::deallocate_post(p0, p1, index),
    ensures
        p1.free_list() == p0.free_list(),
        p1.generation_seq() == p0.generation_seq(),
        p1.object_seq() == p0.object_seq(),
{
}

/// The slots in use: those inside the pool that are not on the free list.
pub open spec fn used_slots<T>(p: ObjectPool<T>) -> Set<usize> {
    Set::new(|i: usize| (i as nat) < p.spec_capacity() && !p.free_list().contains(i))
}

/// Free and used slots add up to the capacity: in every well-formed pool (a new one,
/// and whatever any run of `allocate` and `deallocate` calls makes of it), the
/// available count plus the number of slots in use is the capacity, the active count
/// is the number of slots in use, and allocation fails exactly when no slot is
/// available.
pub proof fn law_free_and_used_add_up<T: Default + Clone>(p: ObjectPool<T>)
    requires
        p.wf(),
    ensures
        used_slots(p).finite(),
        p.free_list().len() + used_slots(p).len() == p.spec_capacity(),
        p.free_list().len() <= p.spec_capacity(),
        p.spec_capacity() - p.free_list().len() == used_slots(p).len(),
        forall|p1: ObjectPool<T>, r: Option<(usize, u32)>| #[trigger] ObjectPool::allocate_post(p, p1, r) ==>
            (r is None <==> p.free_list().len() == 0),
{
    p.lemma_wf();
    let n = p.spec_capacity();
    let f = p.free_list();
    let fs = f.to_set();
    let u = used_slots(p);
    lemma_index_range_len(n);
    f.unique_seq_to_set();
    assert forall|x: usize| fs.contains(x) implies index_range(n).contains(x) by {
        let i = choose|i: int| 0 <= i < f.len() && f[i] == x;
        assert((f[i] as nat) < n);
    }
    vstd::set_lib::lemma_len_subset(fs, index_range(n));
    vstd::set_lib::lemma_len_subset(u, index_range(n));
    assert(fs.disjoint(u));
    assert(fs + u =~= index_range(n));
    vstd::set_lib::lemma_set_disjoint_lens(fs, u);
}

} // verus!
