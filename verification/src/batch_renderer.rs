//! Grouping of render commands into batches that share a material.
//!
//! Each command goes to the first batch that accepts it (one whose material matches
//! when batching by material, and that is below the size limit), or opens a new batch.
//! A batch never mixes materials: adding a command of another material to a batch
//! is refused.

use vstd::prelude::*;
use vstd::string::StringExecFns;
use vstd::seq_lib::*;

use crate::material_type::MaterialId;
use crate::render_queue::{RenderCommand, RenderQueue};
use crate::text::{append_decimal, decimal};

verus! {

/// Errors that can occur during batch rendering.
#[derive(Debug)]
pub enum BatchError {
    /// General rendering errors from the GPU or graphics API
    RenderingError(String),
    /// Invalid or unknown material ID requested
    InvalidMaterial(MaterialId),
    /// Too many commands for a single batch
    BatchSizeExceeded {
        /// Current number of commands
        current: usize,
        /// Maximum allowed commands
        max: usize,
    },
}

impl BatchError {
    /// The text of the error, as it is displayed.
    pub open spec fn spec_message(&self) -> Seq<char> {
        match self {
            BatchError::RenderingError(m) => "Rendering error: "@ + m@,
            BatchError::InvalidMaterial(id) => "Invalid material ID: MaterialId("@ + decimal(id.0 as nat)
                + ")"@,
            BatchError::BatchSizeExceeded { current, max } => "Batch size limit exceeded: "@ + decimal(
                *current as nat,
            ) + " > "@ + decimal(*max as nat),
        }
    }

    /// The text of the error, as it is displayed.
    pub fn message(&self) -> (s: String)
        ensures
            s@ == self.spec_message(),
    {
        match self {
            BatchError::RenderingError(m) => {
                let mut s = String::from_str("Rendering error: ");
                s.append(m.as_str());
                s
            },
            BatchError::InvalidMaterial(id) => {
                let mut s = String::from_str("Invalid material ID: MaterialId(");
                append_decimal(&mut s, id.0 as u64);
                s.append(")");
                s
            },
            BatchError::BatchSizeExceeded { current, max } => {
                let mut s = String::from_str("Batch size limit exceeded: ");
                append_decimal(&mut s, *current as u64);
                s.append(" > ");
                append_decimal(&mut s, *max as u64);
                s
            },
        }
    }
}

/// A batch as a value: its commands and its material.
pub type BatchView<T> = (Seq<RenderCommand<T>>, Option<MaterialId>);

/// Adding a command to a batch: refused when the batch has a material and the
/// command another one; otherwise the command is appended and an empty batch without
/// material takes the command's.
pub open spec fn batch_add<T>(b: BatchView<T>, c: RenderCommand<T>) -> Result<BatchView<T>, BatchError> {
    if b.1 is Some && b.1 != Some(c.material_id) {
        Err(BatchError::InvalidMaterial(c.material_id))
    } else {
        Ok(
            (
                b.0.push(c),
                if b.0.len() == 0 && b.1 is None {
                    Some(c.material_id)
                } else {
                    b.1
                },
            ),
        )
    }
}

/// A group of render commands that share a material.
#[derive(Debug)]
pub struct RenderBatch<T> {
    commands: Vec<RenderCommand<T>>,
    material_id: Option<MaterialId>,
}

impl<T> RenderBatch<T> {
    /// The batch as a value.
    pub closed spec fn view_batch(&self) -> BatchView<T> {
        (self.commands@, self.material_id)
    }

    /// Create an empty batch without a material.
    pub fn new() -> (b: Self)
        ensures
            b.view_batch() == (Seq::<RenderCommand<T>>::empty(), None::<MaterialId>),
    {
        RenderBatch { commands: Vec::new(), material_id: None }
    }

    /// Create an empty batch for the given material.
    pub fn with_material(material_id: MaterialId) -> (b: Self)
        ensures
            b.view_batch() == (Seq::<RenderCommand<T>>::empty(), Some(material_id)),
    {
        RenderBatch { commands: Vec::new(), material_id: Some(material_id) }
    }

    /// Add a command; refused with `InvalidMaterial` when the batch has another material.
    pub fn add_command(&mut self, command: RenderCommand<T>) -> (r: Result<(), BatchError>)
        ensures
            match batch_add(old(self).view_batch(), command) {
                Ok(b) => r is Ok && final(self).view_batch() == b,
                Err(e) => r == Err::<(), BatchError>(e) && final(self).view_batch() == old(self).view_batch(),
            },
    {
        if let Some(batch_material) = self.material_id {
            if command.material_id != batch_material {
                return Err(BatchError::InvalidMaterial(command.material_id));
            }
        }
        if self.commands.len() == 0 && self.material_id.is_none() {
            self.material_id = Some(command.material_id);
        }
        self.commands.push(command);
        Ok(())
    }

    /// The commands of the batch.
    pub fn commands(&self) -> (s: &[RenderCommand<T>])
        ensures
            s@ == self.view_batch().0,
    {
        self.commands.as_slice()
    }

    /// The material of the batch.
    pub fn material_id(&self) -> (m: Option<MaterialId>)
        ensures
            m == self.view_batch().1,
    {
        self.material_id
    }

    /// Whether the batch holds no command.
    pub fn is_empty(&self) -> (b: bool)
        ensures
            b == (self.view_batch().0.len() == 0),
    {
        self.commands.len() == 0
    }

    /// Number of commands in the batch.
    pub fn command_count(&self) -> (n: usize)
        ensures
            n == self.view_batch().0.len(),
    {
        self.commands.len()
    }
}

/// Statistics for batch rendering.
#[derive(Debug, Clone, Copy, PartialEq, Eq, Structural)]
pub struct BatchStats {
    /// Total number of render commands processed
    pub total_commands: usize,
    /// Number of batches created
    pub batch_count: usize,
    /// Time spent collecting commands (microseconds)
    pub collection_time_us: u64,
    /// Time spent submitting to GPU (microseconds)
    pub submission_time_us: u64,
    /// Number of GPU state changes
    pub state_changes: usize,
}

/// Statistics with every counter at zero.
pub open spec fn zero_stats() -> BatchStats {
    BatchStats { total_commands: 0, batch_count: 0, collection_time_us: 0, submission_time_us: 0, state_changes: 0 }
}

impl Default for BatchStats {
    fn default() -> (s: Self)
        ensures
            s == zero_stats(),
    {
        BatchStats { total_commands: 0, batch_count: 0, collection_time_us: 0, submission_time_us: 0, state_changes: 0 }
    }
}

impl BatchStats {
    /// Total frame time in microseconds: collection plus submission.
    pub fn total_time_us(&self) -> (t: u64)
        requires
            self.collection_time_us + self.submission_time_us <= u64::MAX,
        ensures
            t == self.collection_time_us + self.submission_time_us,
    {
        self.collection_time_us + self.submission_time_us
    }
}

/// Whether batch `b` may take command `c`: its material matches when batching by
/// material, and it is below the size limit.
pub open spec fn accepts<T>(b: BatchView<T>, c: RenderCommand<T>, max: usize, by_material: bool) -> bool {
    &&& (by_material && b.1 is Some) ==> b.1 == Some(c.material_id)
    &&& b.0.len() < max
}

/// The first batch of `bs` that accepts `c`.
pub open spec fn find_batch<T>(bs: Seq<BatchView<T>>, c: RenderCommand<T>, max: usize, by_material: bool) -> Option<int>
    decreases bs.len(),
{
    if bs.len() == 0 {
        None
    } else {
        match find_batch(bs.drop_last(), c, max, by_material) {
            Some(i) => Some(i),
            None => if accepts(bs.last(), c, max, by_material) {
                Some(bs.len() - 1)
            } else {
                None
            },
        }
    }
}

/// Batching one command: it goes to the first accepting batch, or a new batch with its
/// material is opened.  The batches reached, and the error if the command was refused.
pub open spec fn batch_step<T>(bs: Seq<BatchView<T>>, c: RenderCommand<T>, max: usize, by_material: bool) -> (
    Seq<BatchView<T>>,
    Option<BatchError>,
) {
    match find_batch(bs, c, max, by_material) {
        Some(i) => match batch_add(bs[i], c) {
            Ok(b) => (bs.update(i, b), None),
            Err(e) => (bs, Some(e)),
        },
        None => (bs.push((seq![c], Some(c.material_id))), None),
    }
}

/// Batching commands in order, stopping at the first refused one: the batches reached
/// and the error, if any.
pub open spec fn batch_all<T>(bs: Seq<BatchView<T>>, cs: Seq<RenderCommand<T>>, max: usize, by_material: bool) -> (
    Seq<BatchView<T>>,
    Option<BatchError>,
)
    decreases cs.len(),
{
    if cs.len() == 0 {
        (bs, None)
    } else {
        let prev = batch_all(bs, cs.drop_last(), max, by_material);
        if prev.1 is Some {
            prev
        } else {
            batch_step(prev.0, cs.last(), max, by_material)
        }
    }
}

/// Batching the opaque commands and then the transparent ones, from no batch.
pub open spec fn batch_queue<T>(opaque: Seq<RenderCommand<T>>, transparent: Seq<RenderCommand<T>>, max: usize, by_material: bool) -> (
    Seq<BatchView<T>>,
    Option<BatchError>,
) {
    let first = batch_all(Seq::empty(), opaque, max, by_material);
    if first.1 is Some {
        first
    } else {
        batch_all(first.0, transparent, max, by_material)
    }
}

/// The commands of the batches, batch after batch.
pub open spec fn all_commands<T>(bs: Seq<BatchView<T>>) -> Seq<RenderCommand<T>>
    decreases bs.len(),
{
    if bs.len() == 0 {
        Seq::empty()
    } else {
        all_commands(bs.drop_last()) + bs.last().0
    }
}

/// Batch renderer: groups the commands of a render queue into batches.
pub struct BatchRenderer<T> {
    current_batches: Vec<RenderBatch<T>>,
    max_batch_size: usize,
    stats: BatchStats,
    batch_by_material: bool,
}

impl<T> BatchRenderer<T> {
    /// The current batches, as values.
    pub closed spec fn batches(&self) -> Seq<BatchView<T>> {
        self.current_batches@.map_values(|b: RenderBatch<T>| b.view_batch())
    }

    /// Maximum number of commands per batch.
    pub closed spec fn spec_max_batch_size(&self) -> usize {
        self.max_batch_size
    }

    /// Whether commands are batched by material.
    pub closed spec fn spec_batch_by_material(&self) -> bool {
        self.batch_by_material
    }

    /// The statistics.
    pub closed spec fn spec_stats(&self) -> BatchStats {
        self.stats
    }

    /// Create a batch renderer that batches by material, at most 100 commands per batch.
    pub fn new() -> (r: Self)
        ensures
            r.batches().len() == 0,
            r.spec_max_batch_size() == 100,
            r.spec_batch_by_material(),
            r.spec_stats() == zero_stats(),
    {
        let r = BatchRenderer {
            current_batches: Vec::new(),
            max_batch_size: 100,
            stats: BatchStats::default(),
            batch_by_material: true,
        };
        assert(r.batches() =~= Seq::<BatchView<T>>::empty());
        r
    }

    /// Create a batch renderer with the given batch size limit and batching mode.
    pub fn with_config(max_batch_size: usize, batch_by_material: bool) -> (r: Self)
        ensures
            r.batches().len() == 0,
            r.spec_max_batch_size() == max_batch_size,
            r.spec_batch_by_material() == batch_by_material,
            r.spec_stats() == zero_stats(),
    {
        let r = BatchRenderer { current_batches: Vec::new(), max_batch_size, stats: BatchStats::default(), batch_by_material };
        assert(r.batches() =~= Seq::<BatchView<T>>::empty());
        r
    }

    /// Maximum number of commands per batch.
    pub fn max_batch_size(&self) -> (n: usize)
        ensures
            n == self.spec_max_batch_size(),
    {
        self.max_batch_size
    }

    /// Whether commands are batched by material.
    pub fn batch_by_material(&self) -> (b: bool)
        ensures
            b == self.spec_batch_by_material(),
    {
        self.batch_by_material
    }

    /// Whether the batch at `i` accepts command `c`.
    fn accepts_at(&self, i: usize, c: &RenderCommand<T>) -> (b: bool)
        requires
            i < self.batches().len(),
        ensures
            b == accepts(self.batches()[i as int], *c, self.spec_max_batch_size(), self.spec_batch_by_material()),
    {
        let batch = &self.current_batches[i];
        let compatible = if self.batch_by_material {
            match batch.material_id() {
                Some(m) => c.material_id == m,
                None => true,
            }
        } else {
            true
        };
        compatible && batch.command_count() < self.max_batch_size
    }

    /// Batch one command: add it to the first batch that accepts it, or open a new batch
    /// with its material.
    fn add_command_to_batch(&mut self, command: RenderCommand<T>) -> (r: Result<(), BatchError>)
        requires
            old(self).spec_stats().batch_count < usize::MAX,
        ensures
            ({
                let step = batch_step(
                    old(self).batches(),
                    command,
                    old(self).spec_max_batch_size(),
                    old(self).spec_batch_by_material(),
                );
                &&& final(self).batches() == step.0
                &&& match step.1 {
                    Some(e) => r == Err::<(), BatchError>(e),
                    None => r is Ok,
                }
            }),
            final(self).spec_max_batch_size() == old(self).spec_max_batch_size(),
            final(self).spec_batch_by_material() == old(self).spec_batch_by_material(),
            final(self).spec_stats() == if find_batch(
                old(self).batches(),
                command,
                old(self).spec_max_batch_size(),
                old(self).spec_batch_by_material(),
            ) is None {
                BatchStats { batch_count: (old(self).spec_stats().batch_count + 1) as usize, ..old(self).spec_stats() }
            } else {
                old(self).spec_stats()
            },
    {
        let ghost bs = self.batches();
        let ghost max = self.max_batch_size;
        let ghost by_mat = self.batch_by_material;
        let mut batch_index: Option<usize> = None;
        let mut i: usize = 0;
        while i < self.current_batches.len()
            invariant_except_break
                batch_index is None,
            invariant
                i <= self.current_batches@.len(),
                bs == self.batches(),
                max == self.max_batch_size,
                by_mat == self.batch_by_material,
                find_batch(bs.take(i as int), command, max, by_mat) is None,
            ensures
                batch_index is None ==> i == self.current_batches@.len(),
                batch_index matches Some(j) ==> j == i && find_batch(bs, command, max, by_mat) == Some(i as int),
                bs == self.batches(),
            decreases self.current_batches@.len() - i,
        {
            proof {
                assert(bs.take(i as int + 1).drop_last() =~= bs.take(i as int));
            }
            if self.accepts_at(i, &command) {
                assert(find_batch(bs.take(i as int + 1), command, max, by_mat) == Some(i as int));
                proof {
                    lemma_find_batch_prefix(bs, command, max, by_mat, i as int + 1);
                }
                batch_index = Some(i);
                break;
            }
            i = i + 1;
        }
        proof {
            if batch_index is None {
                assert(bs.take(i as int) =~= bs);
            }
        }
        proof {
            lemma_find_batch_range(bs, command, max, by_mat);
        }
        match batch_index {
            Some(index) => {
                let ghost before = self.current_batches@;
                let r = self.current_batches[index].add_command(command);
                proof {
                    assert(self.batches() =~= match batch_add(bs[index as int], command) {
                        Ok(b) => bs.update(index as int, b),
                        Err(_) => bs,
                    });
                }
                r
            },
            None => {
                let mut new_batch = if self.batch_by_material {
                    RenderBatch::with_material(command.material_id)
                } else {
                    RenderBatch::new()
                };
                let r = new_batch.add_command(command);
                match r {
                    Ok(()) => {},
                    Err(e) => {
                        return Err(e);
                    },
                }
                self.current_batches.push(new_batch);
                self.stats.batch_count = self.stats.batch_count + 1;
                proof {
                    assert(new_batch.view_batch().0 =~= seq![command]);
                    assert(self.batches() =~= bs.push((seq![command], Some(command.material_id))));
                }
                Ok(())
            },
        }
    }

    /// Batch a list of commands in order, stopping at the first refused one.
    fn process_commands(&mut self, commands: &[RenderCommand<T>]) -> (r: Result<(), BatchError>)
        where T: Copy,
        requires
            old(self).spec_stats().batch_count + commands@.len() <= usize::MAX,
            old(self).spec_stats().batch_count == old(self).batches().len(),
        ensures
            ({
                let res = batch_all(
                    old(self).batches(),
                    commands@,
                    old(self).spec_max_batch_size(),
                    old(self).spec_batch_by_material(),
                );
                &&& final(self).batches() == res.0
                &&& match res.1 {
                    Some(e) => r == Err::<(), BatchError>(e),
                    None => r is Ok,
                }
            }),
            final(self).spec_max_batch_size() == old(self).spec_max_batch_size(),
            final(self).spec_batch_by_material() == old(self).spec_batch_by_material(),
            final(self).spec_stats() == (BatchStats { batch_count: final(self).batches().len() as usize, ..old(self).spec_stats() }),
    {
        let ghost bs0 = self.batches();
        let ghost stats0 = self.stats;
        let mut k: usize = 0;
        while k < commands.len()
            invariant
                k <= commands@.len(),
                self.spec_max_batch_size() == old(self).spec_max_batch_size(),
                self.spec_batch_by_material() == old(self).spec_batch_by_material(),
                batch_all(bs0, commands@.take(k as int), self.spec_max_batch_size(), self.spec_batch_by_material())
                    == (self.batches(), None::<BatchError>),
                self.stats == (BatchStats { batch_count: self.batches().len() as usize, ..stats0 }),
                self.batches().len() <= bs0.len() + k,
                stats0.batch_count == bs0.len(),
                stats0.batch_count + commands@.len() <= usize::MAX,
                bs0 == old(self).batches(),
                stats0 == old(self).spec_stats(),
            decreases commands@.len() - k,
        {
            proof {
                assert(commands@.take(k as int + 1).drop_last() =~= commands@.take(k as int));
                lemma_step_len(self.batches(), commands@[k as int], self.spec_max_batch_size(), self.spec_batch_by_material());
            }
            let c = commands[k];
            let ghost before = self.batches();
            let res = self.add_command_to_batch(c);
            proof {
                assert(commands@.take(k as int + 1).last() == c);
                assert(batch_all(bs0, commands@.take(k as int + 1), self.spec_max_batch_size(), self.spec_batch_by_material())
                    == batch_step(before, c, self.spec_max_batch_size(), self.spec_batch_by_material()));
            }
            match res {
                Ok(()) => {
                    proof {
                        lemma_find_batch_range(before, c, self.spec_max_batch_size(), self.spec_batch_by_material());
                    }
                },
                Err(e) => {
                    proof {
                        let max = self.spec_max_batch_size();
                        let bm = self.spec_batch_by_material();
                        let step = batch_step(before, c, max, bm);
                        assert(find_batch(before, c, max, bm) is Some);
                        lemma_batch_all_stops(bs0, commands@, max, bm, k as int + 1);
                    }
                    return Err(e);
                },
            }
            k = k + 1;
        }
        assert(commands@.take(k as int) =~= commands@);
        Ok(())
    }

    /// Group the commands of `queue` into batches, from no batch and zeroed statistics:
    /// the opaque commands first, then the transparent ones.  On success the total
    /// command count is recorded.
    pub fn process_queue(&mut self, queue: &RenderQueue<T>) -> (r: Result<(), BatchError>)
        where T: Copy,
        requires
            queue.wf(),
        ensures
            ({
                let res = batch_queue(
                    queue.opaque_seq(),
                    queue.transparent_seq(),
                    old(self).spec_max_batch_size(),
                    old(self).spec_batch_by_material(),
                );
                &&& final(self).batches() == res.0
                &&& match res.1 {
                    Some(e) => r == Err::<(), BatchError>(e) && final(self).spec_stats() == (BatchStats {
                        batch_count: final(self).batches().len() as usize,
                        ..zero_stats()
                    }),
                    None => r is Ok && final(self).spec_stats() == (BatchStats {
                        batch_count: final(self).batches().len() as usize,
                        total_commands: (queue.opaque_seq().len() + queue.transparent_seq().len()) as usize,
                        ..zero_stats()
                    }),
                }
            }),
            final(self).spec_max_batch_size() == old(self).spec_max_batch_size(),
            final(self).spec_batch_by_material() == old(self).spec_batch_by_material(),
    {
        self.stats = BatchStats::default();
        self.current_batches.clear();
        proof {
            assert(self.batches() =~= Seq::<BatchView<T>>::empty());
            queue.lemma_wf();
        }
        let r1 = self.process_commands(queue.opaque_commands());
        match r1 {
            Ok(()) => {},
            Err(e) => {
                return Err(e);
            },
        }
        proof {
            lemma_batch_all_len(Seq::empty(), queue.opaque_seq(), self.spec_max_batch_size(), self.spec_batch_by_material());
        }
        let r2 = self.process_commands(queue.transparent_commands());
        match r2 {
            Ok(()) => {},
            Err(e) => {
                return Err(e);
            },
        }
        self.stats.total_commands = queue.command_count();
        Ok(())
    }

    /// Batch the queue and record the command and batch counts.  Commands are drawn by
    /// the renderer in queue order (opaque, then transparent).
    pub fn execute_with_renderer(&mut self, queue: &RenderQueue<T>) -> (r: Result<(), BatchError>)
        where T: Copy,
        requires
            queue.wf(),
        ensures
            ({
                let res = batch_queue(
                    queue.opaque_seq(),
                    queue.transparent_seq(),
                    old(self).spec_max_batch_size(),
                    old(self).spec_batch_by_material(),
                );
                &&& final(self).batches() == res.0
                &&& match res.1 {
                    Some(e) => r == Err::<(), BatchError>(e),
                    None => r is Ok && final(self).spec_stats() == (BatchStats {
                        batch_count: final(self).batches().len() as usize,
                        total_commands: (queue.opaque_seq().len() + queue.transparent_seq().len()) as usize,
                        ..zero_stats()
                    }),
                }
            }),
            final(self).spec_max_batch_size() == old(self).spec_max_batch_size(),
            final(self).spec_batch_by_material() == old(self).spec_batch_by_material(),
    {
        self.process_queue(queue)?;
        self.stats.total_commands = queue.command_count();
        self.stats.batch_count = self.current_batches.len();
        Ok(())
    }

    /// Record the time spent collecting commands.
    pub fn set_collection_time_us(&mut self, us: u64)
        ensures
            final(self).spec_stats() == (BatchStats { collection_time_us: us, ..old(self).spec_stats() }),
            final(self).batches() == old(self).batches(),
            final(self).spec_max_batch_size() == old(self).spec_max_batch_size(),
            final(self).spec_batch_by_material() == old(self).spec_batch_by_material(),
    {
        self.stats.collection_time_us = us;
    }

    /// Record the time spent submitting commands.
    pub fn set_submission_time_us(&mut self, us: u64)
        ensures
            final(self).spec_stats() == (BatchStats { submission_time_us: us, ..old(self).spec_stats() }),
            final(self).batches() == old(self).batches(),
            final(self).spec_max_batch_size() == old(self).spec_max_batch_size(),
            final(self).spec_batch_by_material() == old(self).spec_batch_by_material(),
    {
        self.stats.submission_time_us = us;
    }

    /// The commands of all batches, batch after batch.
    pub fn get_render_commands(&self) -> (v: Vec<&RenderCommand<T>>)
        ensures
            v@.len() == all_commands(self.batches()).len(),
            forall|i: int| 0 <= i < v@.len() ==> *#[trigger] v@[i] == all_commands(self.batches())[i],
    {
        let mut v: Vec<&RenderCommand<T>> = Vec::new();
        let mut b: usize = 0;
        while b < self.current_batches.len()
            invariant
                b <= self.current_batches@.len(),
                v@.len() == all_commands(self.batches().take(b as int)).len(),
                forall|i: int| 0 <= i < v@.len() ==> *#[trigger] v@[i] == all_commands(self.batches().take(b as int))[i],
            decreases self.current_batches@.len() - b,
        {
            let cmds = self.current_batches[b].commands();
            proof {
                assert(self.batches().take(b as int + 1).drop_last() =~= self.batches().take(b as int));
                assert(self.batches()[b as int] == self.current_batches@[b as int].view_batch());
            }
            let ghost v0 = v@;
            let mut j: usize = 0;
            while j < cmds.len()
                invariant
                    j <= cmds@.len(),
                    v@.len() == v0.len() + j,
                    forall|i: int| 0 <= i < v0.len() ==> #[trigger] v@[i] == v0[i],
                    forall|i: int| 0 <= i < j ==> *#[trigger] v@[v0.len() + i] == cmds@[i],
                decreases cmds@.len() - j,
            {
                v.push(&cmds[j]);
                j = j + 1;
            }
            proof {
                let a = all_commands(self.batches().take(b as int));
                let a2 = all_commands(self.batches().take(b as int + 1));
                assert(a2 =~= a + cmds@);
                assert forall|i: int| 0 <= i < v@.len() implies *#[trigger] v@[i] == a2[i] by {
                    if i < v0.len() {
                        assert(v@[i] == v0[i]);
                    } else {
                        assert(v@[v0.len() + (i - v0.len())] == v@[i]);
                    }
                }
            }
            b = b + 1;
        }
        assert(self.batches().take(b as int) =~= self.batches());
        v
    }

    /// The statistics.
    pub fn stats(&self) -> (s: &BatchStats)
        ensures
            *s == self.spec_stats(),
    {
        &self.stats
    }

    /// Reset the statistics to zero.
    pub fn reset_stats(&mut self)
        ensures
            final(self).spec_stats() == zero_stats(),
            final(self).batches() == old(self).batches(),
            final(self).spec_max_batch_size() == old(self).spec_max_batch_size(),
            final(self).spec_batch_by_material() == old(self).spec_batch_by_material(),
    {
        self.stats = BatchStats::default();
    }
}

impl<T> Default for BatchRenderer<T> {
    fn default() -> (r: Self)
        ensures
            r.batches().len() == 0,
            r.spec_max_batch_size() == 100,
            r.spec_batch_by_material(),
            r.spec_stats() == zero_stats(),
    {
        BatchRenderer::new()
    }
}

/// A batch found in a prefix is the batch found in the whole.
proof fn lemma_find_batch_prefix<T>(bs: Seq<BatchView<T>>, c: RenderCommand<T>, max: usize, by_material: bool, k: int)
    requires
        0 <= k <= bs.len(),
        find_batch(bs.take(k), c, max, by_material) is Some,
    ensures
        find_batch(bs, c, max, by_material) == find_batch(bs.take(k), c, max, by_material),
    decreases bs.len() - k,
{
    if k < bs.len() {
        assert(bs.take(k + 1).drop_last() =~= bs.take(k));
        lemma_find_batch_prefix(bs, c, max, by_material, k + 1);
    } else {
        assert(bs.take(k) =~= bs);
    }
}

/// The batch found is one of the batches, and it accepts the command.
proof fn lemma_find_batch_range<T>(bs: Seq<BatchView<T>>, c: RenderCommand<T>, max: usize, by_material: bool)
    ensures
        find_batch(bs, c, max, by_material) matches Some(i) ==> 0 <= i < bs.len() && accepts(bs[i], c, max, by_material),
    decreases bs.len(),
{
    if bs.len() > 0 {
        lemma_find_batch_range(bs.drop_last(), c, max, by_material);
    }
}

/// A batching step adds at most one batch.
proof fn lemma_step_len<T>(bs: Seq<BatchView<T>>, c: RenderCommand<T>, max: usize, by_material: bool)
    ensures
        batch_step(bs, c, max, by_material).0.len() <= bs.len() + 1,
        batch_step(bs, c, max, by_material).0.len() >= bs.len(),
{
    lemma_find_batch_range(bs, c, max, by_material);
}

/// Batching stops at the first refused command: the result over a longer list is the
/// result over the prefix that ended with the refusal.
proof fn lemma_batch_all_stops<T>(
    bs: Seq<BatchView<T>>,
    cs: Seq<RenderCommand<T>>,
    max: usize,
    by_material: bool,
    k: int,
)
    requires
        0 <= k <= cs.len(),
        batch_all(bs, cs.take(k), max, by_material).1 is Some,
    ensures
        batch_all(bs, cs, max, by_material) == batch_all(bs, cs.take(k), max, by_material),
    decreases cs.len() - k,
{
    if k < cs.len() {
        assert(cs.take(k + 1).drop_last() =~= cs.take(k));
        lemma_batch_all_stops(bs, cs, max, by_material, k + 1);
    } else {
        assert(cs.take(k) =~= cs);
    }
}

/// Batching `cs` adds at most one batch per command.
proof fn lemma_batch_all_len<T>(bs: Seq<BatchView<T>>, cs: Seq<RenderCommand<T>>, max: usize, by_material: bool)
    ensures
        batch_all(bs, cs, max, by_material).0.len() <= bs.len() + cs.len(),
    decreases cs.len(),
{
    if cs.len() > 0 {
        lemma_batch_all_len(bs, cs.drop_last(), max, by_material);
        let prev = batch_all(bs, cs.drop_last(), max, by_material);
        lemma_step_len(prev.0, cs.last(), max, by_material);
    }
}

/// Every batch has a material, holds at least one command, all of that material, and
/// no more commands than the size limit (a batch opened under a limit of 0 holds just
/// the command that opened it).
pub open spec fn well_batched<T>(bs: Seq<BatchView<T>>, max: usize) -> bool {
    forall|i: int| 0 <= i < bs.len() ==> {
        let b = #[trigger] bs[i];
        &&& b.1 is Some
        &&& 1 <= b.0.len()
        &&& (b.0.len() <= max || b.0.len() == 1)
        &&& forall|j: int| 0 <= j < b.0.len() ==> Some(#[trigger] b.0[j].material_id) == b.1
    }
}

/// A batching step keeps the batches well formed.
proof fn lemma_step_well_batched<T>(bs: Seq<BatchView<T>>, c: RenderCommand<T>, max: usize, by_material: bool)
    requires
        well_batched(bs, max),
    ensures
        well_batched(batch_step(bs, c, max, by_material).0, max),
{
    lemma_find_batch_range(bs, c, max, by_material);
    let step = batch_step(bs, c, max, by_material);
    match find_batch(bs, c, max, by_material) {
        Some(i) => {
            match batch_add(bs[i], c) {
                Ok(b) => {
                    assert forall|k: int| 0 <= k < step.0.len() implies {
                        let bb = #[trigger] step.0[k];
                        &&& bb.1 is Some
                        &&& 1 <= bb.0.len()
                        &&& (bb.0.len() <= max || bb.0.len() == 1)
                        &&& forall|j: int| 0 <= j < bb.0.len() ==> Some(#[trigger] bb.0[j].material_id) == bb.1
                    } by {
                        if k == i {
                            let b0 = bs[i];
                            assert forall|j: int| 0 <= j < b.0.len() implies Some(#[trigger] b.0[j].material_id) == b.1 by {
                                if j < b0.0.len() {
                                    assert(b.0[j] == b0.0[j]);
                                }
                            }
                        }
                    }
                },
                Err(_) => {},
            }
        },
        None => {
            assert forall|k: int| 0 <= k < step.0.len() implies {
                let bb = #[trigger] step.0[k];
                &&& bb.1 is Some
                &&& 1 <= bb.0.len()
                &&& (bb.0.len() <= max || bb.0.len() == 1)
                &&& forall|j: int| 0 <= j < bb.0.len() ==> Some(#[trigger] bb.0[j].material_id) == bb.1
            } by {
                if k < bs.len() {
                    assert(step.0[k] == bs[k]);
                }
            }
        },
    }
}

/// Batching a list of commands keeps the batches well formed.
proof fn lemma_all_well_batched<T>(bs: Seq<BatchView<T>>, cs: Seq<RenderCommand<T>>, max: usize, by_material: bool)
    requires
        well_batched(bs, max),
    ensures
        well_batched(batch_all(bs, cs, max, by_material).0, max),
    decreases cs.len(),
{
    if cs.len() > 0 {
        lemma_all_well_batched(bs, cs.drop_last(), max, by_material);
        let prev = batch_all(bs, cs.drop_last(), max, by_material);
        if prev.1 is None {
            lemma_step_well_batched(prev.0, cs.last(), max, by_material);
        }
    }
}

/// Batches never mix materials and respect the size limit: every batch the renderer
/// builds from a queue, whether or not batching completed, has a material that all its
/// commands share, and holds at least one and at most `max` commands (exactly one when
/// the limit is 0).
pub proof fn law_batches_hold_one_material<T>(
    opaque: Seq<RenderCommand<T>>,
    transparent: Seq<RenderCommand<T>>,
    max: usize,
    by_material: bool,
)
    ensures
        well_batched(batch_queue(opaque, transparent, max, by_material).0, max),
{
    lemma_all_well_batched(Seq::empty(), opaque, max, by_material);
    let first = batch_all(Seq::empty(), opaque, max, by_material);
    if first.1 is None {
        lemma_all_well_batched(first.0, transparent, max, by_material);
    }
}

/// Replacing a batch by itself with one more command adds that command to the
/// commands of all batches.
proof fn lemma_all_commands_append<T>(bs: Seq<BatchView<T>>, i: int, b: BatchView<T>, c: RenderCommand<T>)
    requires
        0 <= i < bs.len(),
        b.0 == bs[i].0.push(c),
    ensures
        all_commands(bs.update(i, b)).to_multiset() == all_commands(bs).to_multiset().insert(c),
    decreases bs.len(),
{
    broadcast use vstd::multiset::group_multiset_axioms;
    let bs2 = bs.update(i, b);
    let dl = bs.drop_last();
    if i == bs.len() - 1 {
        assert(bs2.drop_last() =~= dl);
        lemma_multiset_commutative(all_commands(dl), b.0);
        lemma_multiset_commutative(all_commands(dl), bs[i].0);
        to_multiset_build(bs[i].0, c);
        assert(all_commands(dl).to_multiset().add(bs[i].0.to_multiset().insert(c)) =~= all_commands(dl).to_multiset().add(
            bs[i].0.to_multiset(),
        ).insert(c));
    } else {
        assert(bs2.drop_last() =~= dl.update(i, b));
        lemma_all_commands_append(dl, i, b, c);
        lemma_multiset_commutative(all_commands(dl.update(i, b)), bs.last().0);
        lemma_multiset_commutative(all_commands(dl), bs.last().0);
        assert(bs2.last() == bs.last());
        assert(all_commands(dl).to_multiset().insert(c).add(bs.last().0.to_multiset()) =~= all_commands(dl).to_multiset().add(
            bs.last().0.to_multiset(),
        ).insert(c));
    }
}

/// A batching step that succeeds adds its command to the commands of all batches; one
/// that is refused changes nothing.
proof fn lemma_step_commands<T>(bs: Seq<BatchView<T>>, c: RenderCommand<T>, max: usize, by_material: bool)
    ensures
        batch_step(bs, c, max, by_material).1 is None ==> all_commands(batch_step(bs, c, max, by_material).0).to_multiset()
            == all_commands(bs).to_multiset().insert(c),
        batch_step(bs, c, max, by_material).1 is Some ==> batch_step(bs, c, max, by_material).0 == bs,
{
    broadcast use vstd::multiset::group_multiset_axioms;
    lemma_find_batch_range(bs, c, max, by_material);
    match find_batch(bs, c, max, by_material) {
        Some(i) => {
            if let Ok(b) = batch_add(bs[i], c) {
                lemma_all_commands_append(bs, i, b, c);
            }
        },
        None => {
            let nb: BatchView<T> = (seq![c], Some(c.material_id));
            assert(bs.push(nb).drop_last() =~= bs);
            assert(batch_step(bs, c, max, by_material).0 == bs.push(nb));
            assert(all_commands(bs.push(nb)) == all_commands(bs) + seq![c]);
            lemma_multiset_commutative(all_commands(bs), seq![c]);
            assert(seq![c] =~= Seq::<RenderCommand<T>>::empty().push(c));
            to_multiset_build(Seq::<RenderCommand<T>>::empty(), c);
            assert(Seq::<RenderCommand<T>>::empty().to_multiset() =~= vstd::multiset::Multiset::empty()) by {
                broadcast use group_to_multiset_ensures;
            }
            assert(all_commands(bs).to_multiset().add(vstd::multiset::Multiset::empty().insert(c)) =~= all_commands(bs).to_multiset().insert(c));
        },
    }
}

/// Batching a list of commands that completes adds exactly those commands.
proof fn lemma_all_commands<T>(bs: Seq<BatchView<T>>, cs: Seq<RenderCommand<T>>, max: usize, by_material: bool)
    ensures
        batch_all(bs, cs, max, by_material).1 is None ==> all_commands(batch_all(bs, cs, max, by_material).0).to_multiset()
            == all_commands(bs).to_multiset().add(cs.to_multiset()),
    decreases cs.len(),
{
    broadcast use vstd::multiset::group_multiset_axioms;
    if cs.len() == 0 {
        assert(cs.to_multiset() =~= vstd::multiset::Multiset::empty()) by {
            broadcast use group_to_multiset_ensures;
        }
        assert(all_commands(bs).to_multiset().add(vstd::multiset::Multiset::empty()) =~= all_commands(bs).to_multiset());
    } else {
        lemma_all_commands(bs, cs.drop_last(), max, by_material);
        let prev = batch_all(bs, cs.drop_last(), max, by_material);
        if prev.1 is None {
            lemma_step_commands(prev.0, cs.last(), max, by_material);
            assert(cs.drop_last().push(cs.last()) =~= cs);
            to_multiset_build(cs.drop_last(), cs.last());
            assert(all_commands(bs).to_multiset().add(cs.drop_last().to_multiset()).insert(cs.last()) =~= all_commands(
                bs,
            ).to_multiset().add(cs.drop_last().to_multiset().insert(cs.last())));
        }
    }
}

/// Every command is batched exactly once: when batching a queue completes, the
/// commands of all batches are, counted with multiplicity, the queue's opaque and
/// transparent commands.
pub proof fn law_every_command_batched_once<T>(
    opaque: Seq<RenderCommand<T>>,
    transparent: Seq<RenderCommand<T>>,
    max: usize,
    by_material: bool,
)
    ensures
        batch_queue(opaque, transparent, max, by_material).1 is None ==> all_commands(
            batch_queue(opaque, transparent, max, by_material).0,
        ).to_multiset() == (opaque + transparent).to_multiset(),
{
    broadcast use vstd::multiset::group_multiset_axioms;
    let e: Seq<BatchView<T>> = Seq::empty();
    assert(all_commands(e) =~= Seq::<RenderCommand<T>>::empty());
    assert(all_commands(e).to_multiset() =~= vstd::multiset::Multiset::empty()) by {
        broadcast use group_to_multiset_ensures;
    }
    lemma_all_commands(e, opaque, max, by_material);
    let first = batch_all(e, opaque, max, by_material);
    if first.1 is None {
        lemma_all_commands(first.0, transparent, max, by_material);
        lemma_multiset_commutative(opaque, transparent);
        assert(vstd::multiset::Multiset::<RenderCommand<T>>::empty().add(opaque.to_multiset()) =~= opaque.to_multiset());
    }
}

} // verus!
