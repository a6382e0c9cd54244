//! Registry of graphics pipelines, at most one per pipeline type, with the pipeline
//! type currently selected for drawing.

use vstd::prelude::*;

use crate::material_type::{MaterialKind, PipelineType, spec_required_pipeline};

verus! {

/// Pipelines of type `G` keyed by pipeline type, and the active pipeline type.
pub struct PipelineManager<G> {
    pipelines: Vec<(PipelineType, G)>,
    active_pipeline: Option<PipelineType>,
}

/// Whether some entry of `s` has pipeline type `t`.
pub open spec fn has_type<G>(s: Seq<(PipelineType, G)>, t: PipelineType) -> bool {
    exists|i: int| 0 <= i < s.len() && s[i].0 == t
}

impl<G> PipelineManager<G> {
    /// The registered pipelines as a map from pipeline type.
    pub closed spec fn pipeline_map(&self) -> Map<PipelineType, G> {
        Map::new(
            |t: PipelineType| has_type(self.pipelines@, t),
            |t: PipelineType| self.pipelines@[choose|i: int| 0 <= i < self.pipelines@.len() && self.pipelines@[i].0 == t].1,
        )
    }

    /// The active pipeline type.
    pub closed spec fn active_type(&self) -> Option<PipelineType> {
        self.active_pipeline
    }

    /// No pipeline type is registered twice.
    pub closed spec fn wf(&self) -> bool {
        forall|i: int, j: int| 0 <= i < self.pipelines@.len() && 0 <= j < self.pipelines@.len() && i != j ==>
            self.pipelines@[i].0 != self.pipelines@[j].0
    }

    /// An empty registry with no active pipeline.
    pub fn new() -> (m: Self)
        ensures
            m.wf(),
            m.pipeline_map() == Map::<PipelineType, G>::empty(),
            m.active_type() is None,
    {
        let m = PipelineManager { pipelines: Vec::new(), active_pipeline: None };
        assert(m.pipeline_map() =~= Map::<PipelineType, G>::empty());
        m
    }

    /// Position of the entry with pipeline type `t`.
    fn find(&self, t: PipelineType) -> (r: Option<usize>)
        requires
            self.wf(),
        ensures
            r matches Some(i) ==> i < self.pipelines@.len() && self.pipelines@[i as int].0 == t,
            r is None ==> !has_type(self.pipelines@, t),
    {
        let mut i: usize = 0;
        while i < self.pipelines.len()
            invariant
                i <= self.pipelines@.len(),
                forall|j: int| 0 <= j < i ==> self.pipelines@[j].0 != t,
            decreases self.pipelines@.len() - i,
        {
            if self.pipelines[i].0 == t {
                return Some(i);
            }
            i = i + 1;
        }
        None
    }

    proof fn lemma_lookup(&self, i: int)
        requires
            self.wf(),
            0 <= i < self.pipelines@.len(),
        ensures
            self.pipeline_map().contains_key(self.pipelines@[i].0),
            self.pipeline_map()[self.pipelines@[i].0] == self.pipelines@[i].1,
    {
        let t = self.pipelines@[i].0;
        let j = choose|j: int| 0 <= j < self.pipelines@.len() && self.pipelines@[j].0 == t;
        assert(j == i);
    }

    /// Register a pipeline for a pipeline type, replacing any pipeline it had.
    pub fn insert_pipeline(&mut self, pipeline_type: PipelineType, pipeline: G)
        requires
            old(self).wf(),
        ensures
            final(self).wf(),
            final(self).pipeline_map() == old(self).pipeline_map().insert(pipeline_type, pipeline),
            final(self).active_type() == old(self).active_type(),
    {
        let ghost old_map = self.pipeline_map();
        match self.find(pipeline_type) {
            Some(i) => {
                self.pipelines.set(i, (pipeline_type, pipeline));
                proof {
                    assert forall|t: PipelineType| #[trigger] self.pipeline_map().contains_key(t) <==> old_map.insert(pipeline_type, pipeline).contains_key(t) by {
                        if has_type(old(self).pipelines@, t) {
                            let j = choose|j: int| 0 <= j < old(self).pipelines@.len() && old(self).pipelines@[j].0 == t;
                            assert(self.pipelines@[j].0 == t);
                        }
                        if has_type(self.pipelines@, t) {
                            let j = choose|j: int| 0 <= j < self.pipelines@.len() && self.pipelines@[j].0 == t;
                            if j != i as int {
                                assert(old(self).pipelines@[j].0 == t);
                            }
                        }
                    }
                    assert forall|t: PipelineType| #[trigger] self.pipeline_map().contains_key(t) implies
                        self.pipeline_map()[t] == old_map.insert(pipeline_type, pipeline)[t] by {
                        let j = choose|j: int| 0 <= j < self.pipelines@.len() && self.pipelines@[j].0 == t;
                        self.lemma_lookup(j);
                        if j != i as int {
                            old(self).lemma_lookup(j);
                        }
                    }
                    assert(self.pipeline_map() =~= old_map.insert(pipeline_type, pipeline));
                }
            },
            None => {
                self.pipelines.push((pipeline_type, pipeline));
                proof {
                    let n = old(self).pipelines@.len() as int;
                    assert forall|t: PipelineType| #[trigger] self.pipeline_map().contains_key(t) <==> old_map.insert(pipeline_type, pipeline).contains_key(t) by {
                        if has_type(old(self).pipelines@, t) {
                            let j = choose|j: int| 0 <= j < old(self).pipelines@.len() && old(self).pipelines@[j].0 == t;
                            assert(self.pipelines@[j].0 == t);
                        }
                        if t == pipeline_type {
                            assert(self.pipelines@[n].0 == t);
                        }
                        if has_type(self.pipelines@, t) {
                            let j = choose|j: int| 0 <= j < self.pipelines@.len() && self.pipelines@[j].0 == t;
                            if j != n {
                                assert(old(self).pipelines@[j].0 == t);
                            }
                        }
                    }
                    assert forall|t: PipelineType| #[trigger] self.pipeline_map().contains_key(t) implies
                        self.pipeline_map()[t] == old_map.insert(pipeline_type, pipeline)[t] by {
                        let j = choose|j: int| 0 <= j < self.pipelines@.len() && self.pipelines@[j].0 == t;
                        self.lemma_lookup(j);
                        if j != n {
                            old(self).lemma_lookup(j);
                        }
                    }
                    assert(self.pipeline_map() =~= old_map.insert(pipeline_type, pipeline));
                }
            },
        }
    }

    /// The pipeline registered for a pipeline type.
    pub fn get_pipeline_by_type(&self, pipeline_type: PipelineType) -> (r: Option<&G>)
        requires
            self.wf(),
        ensures
            r == (if self.pipeline_map().contains_key(pipeline_type) {
                Some(&self.pipeline_map()[pipeline_type])
            } else {
                None
            }),
    {
        match self.find(pipeline_type) {
            Some(i) => {
                proof {
                    self.lemma_lookup(i as int);
                }
                Some(&self.pipelines[i].1)
            },
            None => None,
        }
    }

    /// The pipeline a material of the given kind is drawn with.
    pub fn get_pipeline(&self, material_kind: &MaterialKind) -> (r: Option<&G>)
        requires
            self.wf(),
        ensures
            ({
                let t = spec_required_pipeline(*material_kind);
                r == (if self.pipeline_map().contains_key(t) { Some(&self.pipeline_map()[t]) } else { None })
            }),
    {
        let pipeline_type = material_kind.required_pipeline();
        self.get_pipeline_by_type(pipeline_type)
    }

    /// Make the pipeline for materials of the given kind the active one.
    pub fn set_active_pipeline(&mut self, material_kind: &MaterialKind)
        requires
            old(self).wf(),
        ensures
            final(self).wf(),
            final(self).pipeline_map() == old(self).pipeline_map(),
            final(self).active_type() == Some(spec_required_pipeline(*material_kind)),
    {
        let pipeline_type = material_kind.required_pipeline();
        self.active_pipeline = Some(pipeline_type);
    }

    /// Make a pipeline type the active one.
    pub fn set_active_pipeline_type(&mut self, pipeline_type: PipelineType)
        requires
            old(self).wf(),
        ensures
            final(self).wf(),
            final(self).pipeline_map() == old(self).pipeline_map(),
            final(self).active_type() == Some(pipeline_type),
    {
        self.active_pipeline = Some(pipeline_type);
    }

    /// The pipeline registered for the active pipeline type.
    pub fn get_active_pipeline(&self) -> (r: Option<&G>)
        requires
            self.wf(),
        ensures
            r == (match self.active_type() {
                Some(t) => if self.pipeline_map().contains_key(t) { Some(&self.pipeline_map()[t]) } else { None },
                None => None,
            }),
    {
        match self.active_pipeline {
            Some(t) => self.get_pipeline_by_type(t),
            None => None,
        }
    }

    /// The active pipeline type.
    pub fn get_active_pipeline_type(&self) -> (r: Option<PipelineType>)
        ensures
            r == self.active_type(),
    {
        self.active_pipeline
    }

    /// Whether a pipeline is registered for materials of the given kind.
    pub fn has_pipeline(&self, material_kind: &MaterialKind) -> (b: bool)
        requires
            self.wf(),
        ensures
            b == self.pipeline_map().contains_key(spec_required_pipeline(*material_kind)),
    {
        let pipeline_type = material_kind.required_pipeline();
        match self.find(pipeline_type) {
            Some(i) => {
                proof {
                    self.lemma_lookup(i as int);
                }
                true
            },
            None => false,
        }
    }
}

} // verus!
