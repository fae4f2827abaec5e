use vstd::prelude::*;

verus! {

/// The kinds of pipeline the pipeline manager keeps, one of each.
#[derive(Debug, PartialEq, Eq, Structural, Clone, Copy)]
pub enum PipelineType {
    NoTextures,
    DiffuseTexture,
    NormalDiffuseTexture,
}

/// Whether a pipeline must be built: some material needs it and it does not exist yet.
pub fn pipeline_needed(material_count: usize, pipeline_exists: bool) -> (r: bool)
    ensures
        r == (material_count > 0 && !pipeline_exists),
{
    material_count > 0 && !pipeline_exists
}

} // verus!
