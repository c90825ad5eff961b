//! The lifecycle model of the live graphics pipeline.
//!
//! A `PipelineState` records, for each programmable stage, the compiled
//! words the live pipeline was built from, together with a generation
//! number that rises by one on every swap. The renderer maps the
//! generation to the actual pipeline object it owns; the lifecycle
//! manager replaces the whole `PipelineState` at once, so a reader sees
//! either the previous state or the next, never a half-written one.

use vstd::prelude::*;

use crate::stage::ShaderStage;

verus! {

/// The stage binaries and generation of the live pipeline.
pub struct PipelineState {
    /// Rises by one each time the pipeline is rebuilt and swapped.
    pub generation: u64,
    /// Compiled words of the vertex stage, if one is attached.
    pub vertex: Option<Vec<u32>>,
    /// Compiled words of the fragment stage, if one is attached.
    pub fragment: Option<Vec<u32>>,
    /// Compiled words of the geometry stage, if one is attached.
    pub geometry: Option<Vec<u32>>,
    /// Compiled words of the compute stage, if one is attached.
    pub compute: Option<Vec<u32>>,
    /// Compiled words of the tessellation control stage, if one is attached.
    pub tess_control: Option<Vec<u32>>,
    /// Compiled words of the tessellation evaluation stage, if one is attached.
    pub tess_evaluation: Option<Vec<u32>>,
}

impl PipelineState {
    /// The words attached for a stage, as a sequence.
    pub open spec fn spec_stage(&self, stage: ShaderStage) -> Option<Seq<u32>> {
        let slot = match stage {
            ShaderStage::Vertex => &self.vertex,
            ShaderStage::Fragment => &self.fragment,
            ShaderStage::Geometry => &self.geometry,
            ShaderStage::Compute => &self.compute,
            ShaderStage::TessControl => &self.tess_control,
            ShaderStage::TessEvaluation => &self.tess_evaluation,
        };
        match slot {
            Some(v) => Some(v@),
            None => None,
        }
    }

    /// A pipeline at generation zero with no stage attached.
    pub fn new() -> (r: PipelineState)
        ensures
            r.generation == 0,
            forall|st: ShaderStage| #[trigger] r.spec_stage(st) is None,
    {
        PipelineState {
            generation: 0,
            vertex: None,
            fragment: None,
            geometry: None,
            compute: None,
            tess_control: None,
            tess_evaluation: None,
        }
    }

    /// Attach compiled words for one stage, leaving every other stage
    /// and the generation alone.
    pub fn set_stage(&mut self, stage: ShaderStage, words: Vec<u32>)
        ensures
            final(self).spec_stage(stage) == Some(words@),
            forall|st: ShaderStage|
                st != stage ==> #[trigger] final(self).spec_stage(st) == old(self).spec_stage(st),
            final(self).generation == old(self).generation,
    {
        match stage {
            ShaderStage::Vertex => self.vertex = Some(words),
            ShaderStage::Fragment => self.fragment = Some(words),
            ShaderStage::Geometry => self.geometry = Some(words),
            ShaderStage::Compute => self.compute = Some(words),
            ShaderStage::TessControl => self.tess_control = Some(words),
            ShaderStage::TessEvaluation => self.tess_evaluation = Some(words),
        }
    }

    /// The words attached for a stage.
    pub fn stage_words(&self, stage: ShaderStage) -> (r: Option<&Vec<u32>>)
        ensures
            match r {
                Some(v) => self.spec_stage(stage) == Some(v@),
                None => self.spec_stage(stage) is None,
            },
    {
        let slot = match stage {
            ShaderStage::Vertex => &self.vertex,
            ShaderStage::Fragment => &self.fragment,
            ShaderStage::Geometry => &self.geometry,
            ShaderStage::Compute => &self.compute,
            ShaderStage::TessControl => &self.tess_control,
            ShaderStage::TessEvaluation => &self.tess_evaluation,
        };
        match slot {
            Some(v) => Some(v),
            None => None,
        }
    }
}

} // verus!
