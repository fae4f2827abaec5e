use vstd::prelude::*;

verus! {

/// A render pipeline is known by the paths of its vertex and fragment shaders.
pub type PipelineId = (String, String);

/// The shader paths of a pipeline, as text.
pub open spec fn pipeline_key(p: PipelineId) -> (Seq<char>, Seq<char>) {
    (p.0@, p.1@)
}

/// Whether two pipeline identifiers name the same shaders.
pub fn same_pipeline(a: &PipelineId, b: &PipelineId) -> (r: bool)
    ensures
        r == (pipeline_key(*a) == pipeline_key(*b)),
{
    a.0 == b.0 && a.1 == b.1
}

} // verus!
