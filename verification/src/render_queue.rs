//! Per-frame queue of render commands, split into opaque and transparent lists.
//!
//! Opaque commands are drawn near to far and transparent ones far to near.  A
//! command carries an integer depth key that orders as the camera distance does
//! (the renderer derives it from the distance), and its payload `T` (entity and
//! transform), which the queue never looks into.

use vstd::prelude::*;
use vstd::seq_lib::*;

use crate::depth_sort::{DepthKeyed, has_key, key_before, lemma_stable_sort_same_items, stable_depth_sort, stable_sort_by_depth};
use crate::material_type::MaterialId;

verus! {

/// Identifier handed out for each command added to a queue.
pub type RenderCommandId = u32;

/// Type of render command for sorting and batching.
#[derive(Debug, Clone, Copy, PartialEq, Eq, Structural)]
pub enum CommandType {
    /// Opaque objects rendered front-to-back for depth testing efficiency
    Opaque,
    /// Transparent objects rendered back-to-front for alpha blending
    Transparent,
}

/// A render command: what to draw, with which material, and at what depth.
#[derive(Debug, Clone, Copy)]
pub struct RenderCommand<T> {
    /// What is drawn (entity and world transform)
    pub payload: T,
    /// Material ID to apply
    pub material_id: MaterialId,
    /// Type of command for sorting
    pub command_type: CommandType,
    /// Depth key: larger keys are farther from the camera
    pub depth_key: u32,
}

impl<T> RenderCommand<T> {
    /// Create an opaque render command.
    pub fn opaque(payload: T, material_id: MaterialId, depth_key: u32) -> (c: Self)
        ensures
            c == (RenderCommand { payload, material_id, command_type: CommandType::Opaque, depth_key }),
    {
        RenderCommand { payload, material_id, command_type: CommandType::Opaque, depth_key }
    }

    /// Create a transparent render command.
    pub fn transparent(payload: T, material_id: MaterialId, depth_key: u32) -> (c: Self)
        ensures
            c == (RenderCommand { payload, material_id, command_type: CommandType::Transparent, depth_key }),
    {
        RenderCommand { payload, material_id, command_type: CommandType::Transparent, depth_key }
    }
}

impl<T> DepthKeyed for RenderCommand<T> {
    open spec fn spec_depth_key(&self) -> u32 {
        self.depth_key
    }

    fn depth_key_of(&self) -> (k: u32) {
        self.depth_key
    }
}

/// The render commands of one frame, split by type.
pub struct RenderQueue<T> {
    opaque_commands: Vec<RenderCommand<T>>,
    transparent_commands: Vec<RenderCommand<T>>,
    next_command_id: RenderCommandId,
}

impl<T> RenderQueue<T> {
    /// The opaque commands, in their current order.
    pub closed spec fn opaque_seq(&self) -> Seq<RenderCommand<T>> {
        self.opaque_commands@
    }

    /// The transparent commands, in their current order.
    pub closed spec fn transparent_seq(&self) -> Seq<RenderCommand<T>> {
        self.transparent_commands@
    }

    /// The identifier the next added command receives.
    pub closed spec fn spec_next_id(&self) -> u32 {
        self.next_command_id
    }

    /// Every command added since the last clear is on one of the two lists, and opaque
    /// (transparent) commands are only on the opaque (transparent) list.
    pub closed spec fn wf(&self) -> bool {
        &&& self.opaque_commands@.len() + self.transparent_commands@.len() == self.next_command_id
        &&& forall|i: int| 0 <= i < self.opaque_commands@.len() ==>
            #[trigger] self.opaque_commands@[i].command_type == CommandType::Opaque
        &&& forall|i: int| 0 <= i < self.transparent_commands@.len() ==>
            #[trigger] self.transparent_commands@[i].command_type == CommandType::Transparent
    }

    /// What a well-formed queue's invariant says.
    pub proof fn lemma_wf(&self)
        requires
            self.wf(),
        ensures
            self.opaque_seq().len() + self.transparent_seq().len() == self.spec_next_id(),
            forall|i: int| 0 <= i < self.opaque_seq().len() ==>
                #[trigger] self.opaque_seq()[i].command_type == CommandType::Opaque,
            forall|i: int| 0 <= i < self.transparent_seq().len() ==>
                #[trigger] self.transparent_seq()[i].command_type == CommandType::Transparent,
    {
    }

    /// Create an empty render queue.
    pub fn new() -> (q: Self)
        ensures
            q.wf(),
            q.opaque_seq().len() == 0,
            q.transparent_seq().len() == 0,
            q.spec_next_id() == 0,
    {
        RenderQueue { opaque_commands: Vec::new(), transparent_commands: Vec::new(), next_command_id: 0 }
    }

    /// Create an empty render queue with room reserved for `capacity` opaque commands
    /// and a quarter as many transparent ones.
    pub fn with_capacity(capacity: usize) -> (q: Self)
        ensures
            q.wf(),
            q.opaque_seq().len() == 0,
            q.transparent_seq().len() == 0,
            q.spec_next_id() == 0,
    {
        RenderQueue {
            opaque_commands: Vec::with_capacity(capacity),
            transparent_commands: Vec::with_capacity(capacity / 4),
            next_command_id: 0,
        }
    }

    /// Add a command to the list of its type and return its identifier; identifiers
    /// count up from 0 since the last clear.
    pub fn add_command(&mut self, command: RenderCommand<T>) -> (id: RenderCommandId)
        requires
            old(self).wf(),
            old(self).spec_next_id() < u32::MAX,
        ensures
            final(self).wf(),
            id == old(self).spec_next_id(),
            final(self).spec_next_id() == old(self).spec_next_id() + 1,
            command.command_type == CommandType::Opaque ==> {
                &&& final(self).opaque_seq() == old(self).opaque_seq().push(command)
                &&& final(self).transparent_seq() == old(self).transparent_seq()
            },
            command.command_type == CommandType::Transparent ==> {
                &&& final(self).transparent_seq() == old(self).transparent_seq().push(command)
                &&& final(self).opaque_seq() == old(self).opaque_seq()
            },
    {
        let command_id = self.next_command_id;
        self.next_command_id = self.next_command_id + 1;
        match command.command_type {
            CommandType::Opaque => {
                self.opaque_commands.push(command);
            },
            CommandType::Transparent => {
                self.transparent_commands.push(command);
            },
        }
        command_id
    }

    /// Sort opaque commands near to far and transparent commands far to near; commands
    /// at equal depth keep their order.
    pub fn sort_commands(&mut self)
        requires
            old(self).wf(),
        ensures
            final(self).wf(),
            final(self).spec_next_id() == old(self).spec_next_id(),
            stable_depth_sort(final(self).opaque_seq(), old(self).opaque_seq(), false),
            stable_depth_sort(final(self).transparent_seq(), old(self).transparent_seq(), true),
    {
        let mut opaque: Vec<RenderCommand<T>> = Vec::new();
        std::mem::swap(&mut opaque, &mut self.opaque_commands);
        let mut transparent: Vec<RenderCommand<T>> = Vec::new();
        std::mem::swap(&mut transparent, &mut self.transparent_commands);
        let ghost o0 = opaque@;
        let ghost t0 = transparent@;
        let o1 = stable_sort_by_depth(opaque, false);
        let t1 = stable_sort_by_depth(transparent, true);
        proof {
            lemma_sort_keeps_type(o1@, o0, CommandType::Opaque);
            lemma_sort_keeps_type(t1@, t0, CommandType::Transparent);
        }
        self.opaque_commands = o1;
        self.transparent_commands = t1;
    }

    /// The opaque commands, in their current order.
    pub fn opaque_commands(&self) -> (s: &[RenderCommand<T>])
        ensures
            s@ == self.opaque_seq(),
    {
        self.opaque_commands.as_slice()
    }

    /// The transparent commands, in their current order.
    pub fn transparent_commands(&self) -> (s: &[RenderCommand<T>])
        ensures
            s@ == self.transparent_seq(),
    {
        self.transparent_commands.as_slice()
    }

    /// Total number of commands.
    pub fn command_count(&self) -> (n: usize)
        requires
            self.wf(),
        ensures
            n == self.opaque_seq().len() + self.transparent_seq().len(),
    {
        self.opaque_commands.len() + self.transparent_commands.len()
    }

    /// Remove every command and restart identifiers from 0.
    pub fn clear(&mut self)
        ensures
            final(self).wf(),
            final(self).opaque_seq().len() == 0,
            final(self).transparent_seq().len() == 0,
            final(self).spec_next_id() == 0,
    {
        self.opaque_commands.clear();
        self.transparent_commands.clear();
        self.next_command_id = 0;
    }

    /// Whether the queue holds no command.
    pub fn is_empty(&self) -> (b: bool)
        ensures
            b == (self.opaque_seq().len() == 0 && self.transparent_seq().len() == 0),
    {
        self.opaque_commands.len() == 0 && self.transparent_commands.len() == 0
    }
}

impl<T> Default for RenderQueue<T> {
    fn default() -> (q: Self)
        ensures
            q.wf(),
            q.opaque_seq().len() == 0,
            q.transparent_seq().len() == 0,
            q.spec_next_id() == 0,
    {
        RenderQueue::new()
    }
}

/// A stable sort keeps the commands, so commands that all had one type still do.
proof fn lemma_sort_keeps_type<T>(out: Seq<RenderCommand<T>>, inp: Seq<RenderCommand<T>>, t: CommandType)
    requires
        out.len() == inp.len(),
        forall|k: u32| #[trigger] out.filter(has_key::<RenderCommand<T>>(k)) == inp.filter(has_key::<RenderCommand<T>>(k)),
        forall|i: int| 0 <= i < inp.len() ==> #[trigger] inp[i].command_type == t,
    ensures
        forall|i: int| 0 <= i < out.len() ==> #[trigger] out[i].command_type == t,
{
    assert forall|i: int| 0 <= i < out.len() implies #[trigger] out[i].command_type == t by {
        let f = has_key::<RenderCommand<T>>(out[i].depth_key);
        out.lemma_filter_contains(f, i);
        let fo = out.filter(f);
        assert(inp.filter(f).contains(out[i]));
        inp.lemma_filter_contains_rev(f, out[i]);
    }
}

/// Sorting is a stable permutation: after `sort_commands`, each list is ordered by
/// depth (opaque near to far, transparent far to near), holds the same commands as
/// before, each as many times, and for every depth key keeps them in the same order.
pub proof fn law_sort_is_stable_reordering<T>(q0: RenderQueue<T>, q1: RenderQueue<T>)
    requires
        stable_depth_sort(q1.opaque_seq(), q0.opaque_seq(), false),
        stable_depth_sort(q1.transparent_seq(), q0.transparent_seq(), true),
    ensures
        q1.opaque_seq().len() == q0.opaque_seq().len(),
        q1.transparent_seq().len() == q0.transparent_seq().len(),
        forall|i: int, j: int| 0 <= i < j < q1.opaque_seq().len() ==>
            #[trigger] q1.opaque_seq()[i].depth_key <= #[trigger] q1.opaque_seq()[j].depth_key,
        forall|i: int, j: int| 0 <= i < j < q1.transparent_seq().len() ==>
            #[trigger] q1.transparent_seq()[i].depth_key >= #[trigger] q1.transparent_seq()[j].depth_key,
        forall|k: u32| #[trigger] q1.opaque_seq().filter(has_key::<RenderCommand<T>>(k)) == q0.opaque_seq().filter(has_key::<RenderCommand<T>>(k)),
        forall|k: u32| #[trigger] q1.transparent_seq().filter(has_key::<RenderCommand<T>>(k)) == q0.transparent_seq().filter(has_key::<RenderCommand<T>>(k)),
        q1.opaque_seq().to_multiset() =~= q0.opaque_seq().to_multiset(),
        q1.transparent_seq().to_multiset() =~= q0.transparent_seq().to_multiset(),
{
    lemma_stable_sort_same_items(q1.opaque_seq(), q0.opaque_seq(), false);
    lemma_stable_sort_same_items(q1.transparent_seq(), q0.transparent_seq(), true);
    assert forall|i: int, j: int| 0 <= i < j < q1.opaque_seq().len() implies
        #[trigger] q1.opaque_seq()[i].depth_key <= #[trigger] q1.opaque_seq()[j].depth_key by {
        assert(key_before(q1.opaque_seq()[i].spec_depth_key(), q1.opaque_seq()[j].spec_depth_key(), false));
    }
    assert forall|i: int, j: int| 0 <= i < j < q1.transparent_seq().len() implies
        #[trigger] q1.transparent_seq()[i].depth_key >= #[trigger] q1.transparent_seq()[j].depth_key by {
        assert(key_before(q1.transparent_seq()[i].spec_depth_key(), q1.transparent_seq()[j].spec_depth_key(), true));
    }
}

} // verus!
