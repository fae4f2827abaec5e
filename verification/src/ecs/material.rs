use vstd::prelude::*;

verus! {

/// Numeric identifier of a material: its position among the scene's materials.
pub type MaterialId = u32;

/// What a material attaches to its pipeline: a texture or a buffer.
#[derive(Debug, PartialEq, Eq, Structural, Clone, Copy)]
pub enum MaterialAttachmentKind {
    Texture,
    Buffer,
}

} // verus!
