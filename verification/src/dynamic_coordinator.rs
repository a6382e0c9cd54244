//! Order of the instanced draws of dynamic objects.
//!
//! All objects of a pool are uploaded once, the `i`-th object to instance `i`.  Opaque
//! objects are drawn per pipeline (standard PBR, then unlit), near to far; transparent
//! objects of both transparent pipelines are sorted together far to near and drawn in
//! runs of equal pipeline.  Objects are ordered by an integer depth key that orders as
//! their view-space depth (the renderer derives it from the camera).

use vstd::prelude::*;
use vstd::seq_lib::*;

use crate::depth_sort::{DepthKeyed, lemma_filter_count, lemma_stable_sort_same_items, stable_depth_sort, stable_sort_by_depth};
use crate::error::RenderError;
use crate::handles::DynamicObjectHandle;
use crate::material_type::PipelineType;

verus! {

/// An object to draw: its instance index, pipeline and depth key.
#[derive(Debug, Clone, Copy, PartialEq, Eq, Structural)]
pub struct DrawItem {
    /// Index of the object's instance data in the uploaded buffer
    pub instance: u32,
    /// Pipeline the object's material needs
    pub pipeline: PipelineType,
    /// Depth key: larger keys are farther from the camera
    pub depth_key: u32,
}

impl DepthKeyed for DrawItem {
    open spec fn spec_depth_key(&self) -> u32 {
        self.depth_key
    }

    fn depth_key_of(&self) -> (k: u32) {
        self.depth_key
    }
}

/// A draw call: a pipeline and the instances drawn with it, in order.
pub type DrawGroupView = (PipelineType, Seq<u32>);

/// The draw items of `objects` (pipeline and depth key per object): object `i` is
/// instance `i`.
pub open spec fn draw_items(objects: Seq<(PipelineType, u32)>) -> Seq<DrawItem> {
    Seq::new(objects.len(), |i: int| DrawItem { instance: i as u32, pipeline: objects[i].0, depth_key: objects[i].1 })
}

/// Selects the items drawn with pipeline `t`.
pub open spec fn with_pipeline(t: PipelineType) -> spec_fn(DrawItem) -> bool {
    |d: DrawItem| d.pipeline == t
}

/// The instance indices of the items, in order.
pub open spec fn instances_of(s: Seq<DrawItem>) -> Seq<u32> {
    s.map_values(|d: DrawItem| d.instance)
}

/// Splits items into maximal runs of equal pipeline: one draw call per run.
pub open spec fn pipeline_runs(s: Seq<DrawItem>) -> Seq<DrawGroupView>
    decreases s.len(),
{
    if s.len() == 0 {
        Seq::empty()
    } else {
        let r = pipeline_runs(s.drop_last());
        let d = s.last();
        if r.len() > 0 && r.last().0 == d.pipeline {
            r.update(r.len() - 1, (d.pipeline, r.last().1.push(d.instance)))
        } else {
            r.push((d.pipeline, seq![d.instance]))
        }
    }
}

/// The draw call of pipeline `t` for the opaque items `sorted`, if there are any.
pub open spec fn opaque_call(t: PipelineType, sorted: Seq<DrawItem>) -> Seq<DrawGroupView> {
    if sorted.len() == 0 {
        Seq::empty()
    } else {
        seq![(t, instances_of(sorted))]
    }
}

/// The draw calls for objects (object `i` has pipeline `objects[i].0` and depth key
/// `objects[i].1`, and is instance `i`): the standard PBR objects stably sorted near to
/// far, then the unlit ones likewise (each as one call when there are any), then the
/// objects of both transparent pipelines stably sorted together far to near, one call
/// per run of equal pipeline.
pub open spec fn is_draw_plan(objects: Seq<(PipelineType, u32)>, plan: Seq<DrawGroupView>) -> bool {
    exists|pbr: Seq<DrawItem>, unlit: Seq<DrawItem>, transparent: Seq<DrawItem>|
        #![trigger opaque_call(PipelineType::StandardPBR, pbr), opaque_call(PipelineType::Unlit, unlit), pipeline_runs(transparent)]
    {
        let items = draw_items(objects);
        &&& stable_depth_sort(pbr, items.filter(with_pipeline(PipelineType::StandardPBR)), false)
        &&& stable_depth_sort(unlit, items.filter(with_pipeline(PipelineType::Unlit)), false)
        &&& stable_depth_sort(
            transparent,
            items.filter(with_pipeline(PipelineType::TransparentPBR)) + items.filter(
                with_pipeline(PipelineType::TransparentUnlit),
            ),
            true,
        )
        &&& plan == opaque_call(PipelineType::StandardPBR, pbr) + opaque_call(PipelineType::Unlit, unlit)
            + pipeline_runs(transparent)
    }
}

/// The instances drawn by the calls of a plan, call after call.
pub open spec fn drawn(plan: Seq<DrawGroupView>) -> Seq<u32>
    decreases plan.len(),
{
    if plan.len() == 0 {
        Seq::empty()
    } else {
        drawn(plan.drop_last()) + plan.last().1
    }
}

/// Orchestration of dynamic object draws.
pub struct DynamicCoordinator;

/// The items of `items` drawn with pipeline `t`, in order.
fn select_pipeline(items: &Vec<DrawItem>, t: PipelineType, out: &mut Vec<DrawItem>)
    ensures
        final(out)@ == old(out)@ + items@.filter(with_pipeline(t)),
{
    let ghost out0 = out@;
    let mut i: usize = 0;
    while i < items.len()
        invariant
            i <= items@.len(),
            out@ == out0 + items@.take(i as int).filter(with_pipeline(t)),
        decreases items@.len() - i,
    {
        proof {
            assert(items@.take(i as int + 1) =~= items@.take(i as int).push(items@[i as int]));
            items@.take(i as int).lemma_filter_push(items@[i as int], with_pipeline(t));
        }
        if items[i].pipeline == t {
            out.push(items[i]);
        }
        i = i + 1;
    }
    assert(items@.take(i as int) =~= items@);
}

/// The instance indices of the items, in order.
fn collect_instances(s: &Vec<DrawItem>) -> (v: Vec<u32>)
    ensures
        v@ == instances_of(s@),
{
    let mut v: Vec<u32> = Vec::new();
    let mut i: usize = 0;
    while i < s.len()
        invariant
            i <= s@.len(),
            v@ == instances_of(s@.take(i as int)),
        decreases s@.len() - i,
    {
        proof {
            assert(instances_of(s@.take(i as int + 1)) =~= instances_of(s@.take(i as int)).push(s@[i as int].instance));
        }
        v.push(s[i].instance);
        i = i + 1;
    }
    assert(s@.take(i as int) =~= s@);
    v
}

impl DynamicCoordinator {
    /// After the instance data of a pool was uploaded (`upload` is the outcome, with the
    /// error text of a failed upload), the instance index of each object: the `i`-th
    /// object of `objects` is instance `i`.  A failed upload is reported as a backend
    /// error.
    pub fn upload_pool_instance_data(upload: Result<(), String>, objects: &[DynamicObjectHandle]) -> (r: Result<
        Vec<(DynamicObjectHandle, u32)>,
        RenderError,
    >)
        requires
            objects@.len() <= u32::MAX,
        ensures
            match upload {
                Err(msg) => r matches Err(RenderError::BackendError(m)) && m@ == msg@,
                Ok(()) => r matches Ok(v) && v@.len() == objects@.len() && forall|i: int|
                    0 <= i < v@.len() ==> #[trigger] v@[i] == (objects@[i], i as u32),
            },
    {
        match upload {
            Err(msg) => Err(RenderError::BackendError(msg)),
            Ok(()) => {
                let mut object_indices: Vec<(DynamicObjectHandle, u32)> = Vec::new();
                let mut current_index: u32 = 0;
                let mut i: usize = 0;
                while i < objects.len()
                    invariant
                        objects@.len() <= u32::MAX,
                        i <= objects@.len(),
                        current_index == i,
                        object_indices@.len() == i,
                        forall|j: int| 0 <= j < i ==> #[trigger] object_indices@[j] == (objects@[j], j as u32),
                    decreases objects@.len() - i,
                {
                    object_indices.push((objects[i], current_index));
                    current_index = current_index + 1;
                    i = i + 1;
                }
                Ok(object_indices)
            },
        }
    }

    /// The draw calls for a pool's objects (object `i` has pipeline `objects[i].0` and
    /// depth key `objects[i].1`, and is instance `i`): the standard PBR objects near to
    /// far, then the unlit ones near to far (each as one call when there are any), then
    /// the objects of both transparent pipelines sorted together far to near, one call
    /// per run of equal pipeline.  Objects at equal depth keep their order.
    pub fn plan_dynamic_draws(objects: &[(PipelineType, u32)]) -> (v: Vec<(PipelineType, Vec<u32>)>)
        requires
            objects@.len() <= u32::MAX,
        ensures
            is_draw_plan(objects@, v@.map_values(|g: (PipelineType, Vec<u32>)| (g.0, g.1@))),
    {
        let mut items: Vec<DrawItem> = Vec::new();
        let mut i: usize = 0;
        while i < objects.len()
            invariant
                objects@.len() <= u32::MAX,
                i <= objects@.len(),
                items@ == draw_items(objects@).take(i as int),
            decreases objects@.len() - i,
        {
            items.push(DrawItem { instance: i as u32, pipeline: objects[i].0, depth_key: objects[i].1 });
            proof {
                assert(items@ =~= draw_items(objects@).take(i as int + 1));
            }
            i = i + 1;
        }
        proof {
            assert(items@ =~= draw_items(objects@));
        }
        let mut plan: Vec<(PipelineType, Vec<u32>)> = Vec::new();

        let mut pbr: Vec<DrawItem> = Vec::new();
        select_pipeline(&items, PipelineType::StandardPBR, &mut pbr);
        assert(pbr@ =~= items@.filter(with_pipeline(PipelineType::StandardPBR)));
        let pbr = stable_sort_by_depth(pbr, false);
        if pbr.len() > 0 {
            let instances = collect_instances(&pbr);
            plan.push((PipelineType::StandardPBR, instances));
        }
        let ghost plan1 = plan@.map_values(|g: (PipelineType, Vec<u32>)| (g.0, g.1@));
        assert(plan1 =~= opaque_call(PipelineType::StandardPBR, pbr@));

        let mut unlit: Vec<DrawItem> = Vec::new();
        select_pipeline(&items, PipelineType::Unlit, &mut unlit);
        assert(unlit@ =~= items@.filter(with_pipeline(PipelineType::Unlit)));
        let unlit = stable_sort_by_depth(unlit, false);
        if unlit.len() > 0 {
            let instances = collect_instances(&unlit);
            plan.push((PipelineType::Unlit, instances));
        }
        let ghost plan2 = plan@.map_values(|g: (PipelineType, Vec<u32>)| (g.0, g.1@));
        assert(plan2 =~= opaque_call(PipelineType::StandardPBR, pbr@) + opaque_call(PipelineType::Unlit, unlit@));

        let mut transparent: Vec<DrawItem> = Vec::new();
        select_pipeline(&items, PipelineType::TransparentPBR, &mut transparent);
        select_pipeline(&items, PipelineType::TransparentUnlit, &mut transparent);
        assert(transparent@ =~= items@.filter(with_pipeline(PipelineType::TransparentPBR)) + items@.filter(
            with_pipeline(PipelineType::TransparentUnlit),
        ));
        let transparent = stable_sort_by_depth(transparent, true);

        // One call per run of equal pipeline.
        let base = plan.len();
        let mut k: usize = 0;
        while k < transparent.len()
            invariant
                k <= transparent@.len(),
                base == plan2.len(),
                plan@.len() >= base,
                plan@.map_values(|g: (PipelineType, Vec<u32>)| (g.0, g.1@)) == plan2 + pipeline_runs(transparent@.take(k as int)),
            decreases transparent@.len() - k,
        {
            let d = transparent[k];
            let ghost runs0 = pipeline_runs(transparent@.take(k as int));
            proof {
                assert(transparent@.take(k as int + 1).drop_last() =~= transparent@.take(k as int));
                assert(transparent@.take(k as int + 1).last() == d);
            }
            let n = plan.len();
            let ghost old_plan = plan@;
            let ghost f = |g: (PipelineType, Vec<u32>)| (g.0, g.1@);
            proof {
                assert(old_plan.map_values(f) == plan2 + runs0);
                assert(old_plan.map_values(f).len() == old_plan.len());
                assert(n == base + runs0.len());
                if n > base {
                    assert(old_plan.map_values(f)[n - 1] == runs0[runs0.len() - 1]);
                }
            }
            let extend = n > base && plan[n - 1].0 == d.pipeline;
            if extend {
                let mut last = plan.pop().unwrap();
                let ghost last0 = last;
                last.1.push(d.instance);
                plan.push(last);
                proof {
                    assert(plan@ =~= old_plan.update(n - 1, last));
                    assert(last0 == old_plan[n - 1]);
                    let runs1 = runs0.update(runs0.len() - 1, (d.pipeline, runs0.last().1.push(d.instance)));
                    assert(pipeline_runs(transparent@.take(k as int + 1)) == runs1);
                    assert(f(old_plan[n - 1]) == runs0.last());
                    assert(f(last) == (d.pipeline, runs0.last().1.push(d.instance)));
                    assert forall|j: int| 0 <= j < plan@.len() implies #[trigger] plan@.map_values(f)[j] == (plan2 + runs1)[j] by {
                        if j < n - 1 {
                            assert(plan@[j] == old_plan[j]);
                            assert(old_plan.map_values(f)[j] == (plan2 + runs0)[j]);
                        }
                    }
                    assert(plan@.map_values(f) =~= plan2 + runs1);
                }
            } else {
                let mut instances: Vec<u32> = Vec::new();
                instances.push(d.instance);
                plan.push((d.pipeline, instances));
                proof {
                    assert(instances@ =~= seq![d.instance]);
                    let runs1 = runs0.push((d.pipeline, seq![d.instance]));
                    assert(pipeline_runs(transparent@.take(k as int + 1)) == runs1);
                    assert(plan@.len() == n + 1);
                    assert forall|j: int| 0 <= j < plan@.len() implies #[trigger] plan@.map_values(f)[j] == (plan2 + runs1)[j] by {
                        if j < n {
                            assert(plan@[j] == old_plan[j]);
                            assert(old_plan.map_values(f)[j] == (plan2 + runs0)[j]);
                        } else {
                            assert(plan@[j] == (d.pipeline, instances));
                        }
                    }
                    assert(plan@.map_values(f) =~= plan2 + runs1);
                }
            }
            k = k + 1;
        }
        proof {
            assert(transparent@.take(k as int) =~= transparent@);
        }
        plan
    }
}


/// The instances of two plans drawn one after the other.
proof fn lemma_drawn_concat(a: Seq<DrawGroupView>, b: Seq<DrawGroupView>)
    ensures
        drawn(a + b) == drawn(a) + drawn(b),
    decreases b.len(),
{
    if b.len() == 0 {
        assert(a + b =~= a);
        assert(drawn(a) + drawn(b) =~= drawn(a));
    } else {
        lemma_drawn_concat(a, b.drop_last());
        assert((a + b).drop_last() =~= a + b.drop_last());
        assert((a + b).last() == b.last());
        assert(drawn(a + b) =~= drawn(a) + drawn(b));
    }
}

/// The calls of runs of equal pipeline draw the items in order.
proof fn lemma_drawn_runs(s: Seq<DrawItem>)
    ensures
        drawn(pipeline_runs(s)) == instances_of(s),
    decreases s.len(),
{
    if s.len() > 0 {
        let s0 = s.drop_last();
        let d = s.last();
        let r = pipeline_runs(s0);
        lemma_drawn_runs(s0);
        assert(instances_of(s) =~= instances_of(s0).push(d.instance));
        if r.len() > 0 && r.last().0 == d.pipeline {
            let g = (d.pipeline, r.last().1.push(d.instance));
            let r1 = r.update(r.len() - 1, g);
            assert(r1.drop_last() =~= r.drop_last());
            assert(r1.last() == g);
            assert(drawn(r1) =~= drawn(r).push(d.instance));
        } else {
            let r1 = r.push((d.pipeline, seq![d.instance]));
            assert(r1.drop_last() =~= r);
            assert(drawn(r1) =~= drawn(r).push(d.instance));
        }
    }
}

/// The call of an opaque pipeline draws its items in order.
proof fn lemma_drawn_opaque(t: PipelineType, s: Seq<DrawItem>)
    ensures
        drawn(opaque_call(t, s)) == instances_of(s),
{
    if s.len() == 0 {
        assert(instances_of(s) =~= Seq::<u32>::empty());
    } else {
        let c = opaque_call(t, s);
        assert(c.drop_last() =~= Seq::<DrawGroupView>::empty());
        assert(drawn(c.drop_last()) == Seq::<u32>::empty());
        assert(c.last().1 == instances_of(s));
        assert(drawn(c) =~= instances_of(s));
    }
}

/// Sequences holding the same items keep doing so when each item is mapped.
proof fn lemma_map_same_items<A, B>(a: Seq<A>, b: Seq<A>, f: spec_fn(A) -> B)
    requires
        a.to_multiset() == b.to_multiset(),
    ensures
        a.map_values(f).to_multiset() == b.map_values(f).to_multiset(),
    decreases a.len(),
{
    broadcast use vstd::multiset::group_multiset_axioms;
    broadcast use group_to_multiset_ensures;

    if a.len() == 0 {
        assert(a.len() == a.to_multiset().len());
        assert(b.len() == b.to_multiset().len());
        assert(a.map_values(f) =~= b.map_values(f));
    } else {
        let e = a.last();
        let a0 = a.drop_last();
        assert(a =~= a0.push(e));
        assert(a0.to_multiset() =~= a.to_multiset().remove(e));
        assert(b.to_multiset().count(e) > 0);
        assert(b.contains(e));
        let j = choose|j: int| 0 <= j < b.len() && b[j] == e;
        let b0 = b.remove(j);
        assert(b0.to_multiset() =~= b.to_multiset().remove(e));
        lemma_map_same_items(a0, b0, f);
        assert(a.map_values(f) =~= a0.map_values(f).push(f(e)));
        assert(b.map_values(f) =~= b0.map_values(f).insert(j, f(e)));
    }
}

/// The draw items split by pipeline, the four parts together, hold the same items as
/// the whole.
proof fn lemma_pipelines_partition(items: Seq<DrawItem>)
    ensures
        (items.filter(with_pipeline(PipelineType::StandardPBR)) + items.filter(with_pipeline(PipelineType::Unlit))
            + (items.filter(with_pipeline(PipelineType::TransparentPBR)) + items.filter(
            with_pipeline(PipelineType::TransparentUnlit),
        ))).to_multiset() =~= items.to_multiset(),
{
    broadcast use vstd::multiset::group_multiset_axioms;

    let f1 = items.filter(with_pipeline(PipelineType::StandardPBR));
    let f2 = items.filter(with_pipeline(PipelineType::Unlit));
    let f3 = items.filter(with_pipeline(PipelineType::TransparentPBR));
    let f4 = items.filter(with_pipeline(PipelineType::TransparentUnlit));
    lemma_multiset_commutative(f1, f2);
    lemma_multiset_commutative(f3, f4);
    lemma_multiset_commutative(f1 + f2, f3 + f4);
    assert forall|x: DrawItem| #[trigger] (f1 + f2 + (f3 + f4)).to_multiset().count(x) == items.to_multiset().count(x) by {
        lemma_filter_count(items, with_pipeline(PipelineType::StandardPBR), x);
        lemma_filter_count(items, with_pipeline(PipelineType::Unlit), x);
        lemma_filter_count(items, with_pipeline(PipelineType::TransparentPBR), x);
        lemma_filter_count(items, with_pipeline(PipelineType::TransparentUnlit), x);
    }
}

/// Every object is drawn exactly once: the calls of a draw plan for `n` objects draw
/// `n` instances, all different, all below `n`, and among them the instance of every
/// object.
pub proof fn law_each_object_drawn_once(objects: Seq<(PipelineType, u32)>, plan: Seq<DrawGroupView>)
    requires
        objects.len() <= u32::MAX,
        is_draw_plan(objects, plan),
    ensures
        drawn(plan).len() == objects.len(),
        drawn(plan).no_duplicates(),
        forall|j: int| 0 <= j < drawn(plan).len() ==> (#[trigger] drawn(plan)[j] as int) < objects.len(),
        forall|i: int| 0 <= i < objects.len() ==> #[trigger] drawn(plan).contains(i as u32),
{
    broadcast use vstd::multiset::group_multiset_axioms;
    broadcast use group_to_multiset_ensures;

    let items = draw_items(objects);
    let (pbr, unlit, transparent) = choose|pbr: Seq<DrawItem>, unlit: Seq<DrawItem>, transparent: Seq<DrawItem>|
        #![trigger opaque_call(PipelineType::StandardPBR, pbr), opaque_call(PipelineType::Unlit, unlit), pipeline_runs(transparent)]
    {
        &&& stable_depth_sort(pbr, items.filter(with_pipeline(PipelineType::StandardPBR)), false)
        &&& stable_depth_sort(unlit, items.filter(with_pipeline(PipelineType::Unlit)), false)
        &&& stable_depth_sort(
            transparent,
            items.filter(with_pipeline(PipelineType::TransparentPBR)) + items.filter(
                with_pipeline(PipelineType::TransparentUnlit),
            ),
            true,
        )
        &&& plan == opaque_call(PipelineType::StandardPBR, pbr) + opaque_call(PipelineType::Unlit, unlit)
            + pipeline_runs(transparent)
    };
    let f1 = items.filter(with_pipeline(PipelineType::StandardPBR));
    let f2 = items.filter(with_pipeline(PipelineType::Unlit));
    let f34 = items.filter(with_pipeline(PipelineType::TransparentPBR)) + items.filter(
        with_pipeline(PipelineType::TransparentUnlit),
    );
    // The plan draws the sorted items, part after part.
    lemma_drawn_concat(
        opaque_call(PipelineType::StandardPBR, pbr),
        opaque_call(PipelineType::Unlit, unlit),
    );
    lemma_drawn_concat(
        opaque_call(PipelineType::StandardPBR, pbr) + opaque_call(PipelineType::Unlit, unlit),
        pipeline_runs(transparent),
    );
    lemma_drawn_opaque(PipelineType::StandardPBR, pbr);
    lemma_drawn_opaque(PipelineType::Unlit, unlit);
    lemma_drawn_runs(transparent);
    let sorted = pbr + unlit + transparent;
    assert(drawn(plan) =~= instances_of(sorted));
    // The sorted parts hold the same items as the unsorted ones, which hold the objects.
    lemma_stable_sort_same_items(pbr, f1, false);
    lemma_stable_sort_same_items(unlit, f2, false);
    lemma_stable_sort_same_items(transparent, f34, true);
    lemma_multiset_commutative(pbr, unlit);
    lemma_multiset_commutative(pbr + unlit, transparent);
    lemma_multiset_commutative(f1, f2);
    lemma_multiset_commutative(f1 + f2, f34);
    lemma_pipelines_partition(items);
    assert(sorted.to_multiset() =~= items.to_multiset());
    lemma_map_same_items(sorted, items, |d: DrawItem| d.instance);
    // The objects are the instances below n, each once.
    let ids = instances_of(items);
    assert(ids =~= Seq::new(objects.len(), |i: int| i as u32));
    assert(ids.no_duplicates());
    ids.lemma_multiset_has_no_duplicates();
    let d = drawn(plan);
    assert(d.to_multiset() == ids.to_multiset());
    assert(d.len() == d.to_multiset().len());
    assert(ids.len() == ids.to_multiset().len());
    assert forall|x: u32| d.to_multiset().contains(x) implies d.to_multiset().count(x) == 1 by {
        assert(ids.to_multiset().contains(x));
    }
    d.lemma_multiset_has_no_duplicates_conv();
    assert forall|j: int| 0 <= j < d.len() implies (#[trigger] d[j] as int) < objects.len() by {
        assert(d.to_multiset().count(d[j]) > 0);
        assert(ids.contains(d[j]));
    }
    assert forall|i: int| 0 <= i < objects.len() implies #[trigger] d.contains(i as u32) by {
        assert(ids[i] == i as u32);
        assert(ids.to_multiset().count(i as u32) > 0);
    }
}


/// The calls of runs of equal pipeline are not empty, two consecutive ones use
/// different pipelines, and each uses the pipeline of one of the items.
proof fn lemma_runs_maximal(s: Seq<DrawItem>, allowed: spec_fn(PipelineType) -> bool)
    requires
        forall|k: int| 0 <= k < s.len() ==> allowed(#[trigger] s[k].pipeline),
    ensures
        forall|j: int| 0 <= j < pipeline_runs(s).len() ==> (#[trigger] pipeline_runs(s)[j]).1.len() > 0,
        forall|j: int| 0 <= j < pipeline_runs(s).len() ==> allowed(#[trigger] pipeline_runs(s)[j].0),
        forall|j: int| 0 <= j < pipeline_runs(s).len() - 1 ==> #[trigger] pipeline_runs(s)[j].0 != pipeline_runs(s)[j + 1].0,
    decreases s.len(),
{
    if s.len() > 0 {
        let s0 = s.drop_last();
        let d = s.last();
        let r = pipeline_runs(s0);
        assert forall|k: int| 0 <= k < s0.len() implies allowed(#[trigger] s0[k].pipeline) by {
            assert(s0[k] == s[k]);
        }
        lemma_runs_maximal(s0, allowed);
        assert(allowed(s[s.len() - 1].pipeline));
        let r1 = pipeline_runs(s);
        if r.len() > 0 && r.last().0 == d.pipeline {
            assert(r1 == r.update(r.len() - 1, (d.pipeline, r.last().1.push(d.instance))));
            assert forall|j: int| 0 <= j < r1.len() - 1 implies #[trigger] r1[j].0 != r1[j + 1].0 by {
                assert(r1[j] == r[j]);
                if j + 1 < r.len() - 1 {
                    assert(r1[j + 1] == r[j + 1]);
                } else {
                    assert(r1[j + 1].0 == r[j + 1].0);
                }
            }
            assert forall|j: int| 0 <= j < r1.len() implies (#[trigger] r1[j]).1.len() > 0 && allowed(r1[j].0) by {
                if j < r.len() - 1 {
                    assert(r1[j] == r[j]);
                }
            }
        } else {
            assert(r1 == r.push((d.pipeline, seq![d.instance])));
            assert forall|j: int| 0 <= j < r1.len() - 1 implies #[trigger] r1[j].0 != r1[j + 1].0 by {
                assert(r1[j] == r[j]);
                if j + 1 < r.len() {
                    assert(r1[j + 1] == r[j + 1]);
                }
            }
            assert forall|j: int| 0 <= j < r1.len() implies (#[trigger] r1[j]).1.len() > 0 && allowed(r1[j].0) by {
                if j < r.len() {
                    assert(r1[j] == r[j]);
                }
            }
        }
    }
}

/// Whether a pipeline is one of the two transparent ones.
pub open spec fn is_transparent_pipeline(p: PipelineType) -> bool {
    p == PipelineType::TransparentPBR || p == PipelineType::TransparentUnlit
}

/// A draw plan uses as few calls as its order allows: no call is empty and no two
/// consecutive calls use the same pipeline, so each run of objects with equal
/// pipeline in the drawing order is one instanced call.
pub proof fn law_draw_calls_are_maximal_runs(objects: Seq<(PipelineType, u32)>, plan: Seq<DrawGroupView>)
    requires
        is_draw_plan(objects, plan),
    ensures
        forall|j: int| 0 <= j < plan.len() ==> (#[trigger] plan[j]).1.len() > 0,
        forall|j: int| 0 <= j < plan.len() - 1 ==> #[trigger] plan[j].0 != plan[j + 1].0,
{
    broadcast use vstd::multiset::group_multiset_axioms;
    broadcast use group_to_multiset_ensures;

    let items = draw_items(objects);
    let (pbr, unlit, transparent) = choose|pbr: Seq<DrawItem>, unlit: Seq<DrawItem>, transparent: Seq<DrawItem>|
        #![trigger opaque_call(PipelineType::StandardPBR, pbr), opaque_call(PipelineType::Unlit, unlit), pipeline_runs(transparent)]
    {
        &&& stable_depth_sort(pbr, items.filter(with_pipeline(PipelineType::StandardPBR)), false)
        &&& stable_depth_sort(unlit, items.filter(with_pipeline(PipelineType::Unlit)), false)
        &&& stable_depth_sort(
            transparent,
            items.filter(with_pipeline(PipelineType::TransparentPBR)) + items.filter(
                with_pipeline(PipelineType::TransparentUnlit),
            ),
            true,
        )
        &&& plan == opaque_call(PipelineType::StandardPBR, pbr) + opaque_call(PipelineType::Unlit, unlit)
            + pipeline_runs(transparent)
    };
    let fa = items.filter(with_pipeline(PipelineType::TransparentPBR));
    let fb = items.filter(with_pipeline(PipelineType::TransparentUnlit));
    let f34 = fa + fb;
    lemma_stable_sort_same_items(transparent, f34, true);
    let allowed = |p: PipelineType| is_transparent_pipeline(p);
    assert forall|k: int| 0 <= k < transparent.len() implies allowed(#[trigger] transparent[k].pipeline) by {
        let x = transparent[k];
        assert(transparent.to_multiset().count(x) > 0);
        assert(f34.contains(x));
        let q = choose|q: int| 0 <= q < f34.len() && f34[q] == x;
        if q < fa.len() {
            assert(fa[q] == x);
            items.lemma_filter_pred(with_pipeline(PipelineType::TransparentPBR), q);
        } else {
            assert(fb[q - fa.len()] == x);
            items.lemma_filter_pred(with_pipeline(PipelineType::TransparentUnlit), q - fa.len());
        }
    }
    lemma_runs_maximal(transparent, allowed);
    let a = opaque_call(PipelineType::StandardPBR, pbr);
    let b = opaque_call(PipelineType::Unlit, unlit);
    let c = pipeline_runs(transparent);
    assert(plan == a + b + c);
    assert forall|j: int| 0 <= j < plan.len() implies (#[trigger] plan[j]).1.len() > 0 by {
        if j < a.len() {
            assert(plan[j] == a[j]);
            assert(instances_of(pbr).len() == pbr.len());
        } else if j < a.len() + b.len() {
            assert(plan[j] == b[j - a.len()]);
            assert(instances_of(unlit).len() == unlit.len());
        } else {
            assert(plan[j] == c[j - a.len() - b.len()]);
        }
    }
    assert forall|j: int| 0 <= j < plan.len() - 1 implies #[trigger] plan[j].0 != plan[j + 1].0 by {
        let n = a.len() + b.len();
        if j + 1 < n {
            assert(a.len() == 1 && b.len() == 1);
            assert(plan[j] == a[0]);
            assert(plan[j + 1] == b[0]);
        } else if j < n {
            assert(plan[j + 1] == c[j + 1 - n]);
            assert(allowed(c[j + 1 - n].0));
            if j < a.len() {
                assert(plan[j] == a[j]);
            } else {
                assert(plan[j] == b[j - a.len()]);
            }
        } else {
            assert(plan[j] == c[j - n]);
            assert(plan[j + 1] == c[j + 1 - n]);
        }
    }
}

} // verus!
