use vstd::prelude::*;

verus! {

/// Why a pipeline could not be built.
#[derive(Debug)]
pub enum PipelineError {
    PathNotFound(String),
}

/// The kind of pipeline a material needs, by the textures it has.
#[derive(Debug, PartialEq, Eq, Structural, Clone, Copy)]
pub enum PipelineType {
    Plain,
    DiffuseTexture,
    NormalDiffuseTexture,
}

/// What a binding of a texture bind group holds.
#[derive(Debug, PartialEq, Eq, Structural, Clone, Copy)]
pub enum TextureBindingKind {
    Texture,
    Sampler,
}

/// One entry of a bind group layout: its binding number and what it holds.
#[derive(Debug, PartialEq, Eq, Structural, Clone, Copy)]
pub struct LayoutBinding {
    pub binding: u32,
    pub kind: TextureBindingKind,
}

/// The bind groups of a pipeline layout, in the order of their group numbers.
#[derive(Debug, PartialEq, Eq, Structural, Clone, Copy)]
pub enum BindGroupSlot {
    Textures,
    Camera,
    UniformBuffer,
}

/// The texture bind group layout for `texture_count` textures: each texture
/// takes two bindings in turn, first the texture and then its sampler.
pub fn texture_layout_bindings(texture_count: u32) -> (r: Vec<LayoutBinding>)
    requires
        texture_count <= 0x8000_0000,
    ensures
        r@.len() == 2 * texture_count,
        forall|k: int|
            0 <= k < r@.len() ==> (#[trigger] r@[k]).binding == k && r@[k].kind == (if k % 2 == 0 {
                TextureBindingKind::Texture
            } else {
                TextureBindingKind::Sampler
            }),
{
    let mut out: Vec<LayoutBinding> = Vec::new();
    if texture_count == 0 {
        return out;
    }
    let mut i: u32 = 0;
    while i < texture_count
        invariant
            texture_count <= 0x8000_0000,
            i <= texture_count,
            out@.len() == 2 * i,
            forall|k: int|
                0 <= k < out@.len() ==> (#[trigger] out@[k]).binding == k && out@[k].kind == (if k
                    % 2 == 0 {
                    TextureBindingKind::Texture
                } else {
                    TextureBindingKind::Sampler
                }),
        decreases texture_count - i,
    {
        out.push(LayoutBinding { binding: i * 2, kind: TextureBindingKind::Texture });
        out.push(LayoutBinding { binding: i * 2 + 1, kind: TextureBindingKind::Sampler });
        i = i + 1;
    }
    out
}

/// The bind groups of a material's pipeline: textures, then camera, then a
/// uniform buffer where the material uses one.
pub fn bind_group_layout_order(uses_uniform_buffer: bool) -> (r: Vec<BindGroupSlot>)
    ensures
        r@ == (if uses_uniform_buffer {
            seq![BindGroupSlot::Textures, BindGroupSlot::Camera, BindGroupSlot::UniformBuffer]
        } else {
            seq![BindGroupSlot::Textures, BindGroupSlot::Camera]
        }),
{
    let mut out = Vec::new();
    out.push(BindGroupSlot::Textures);
    out.push(BindGroupSlot::Camera);
    if uses_uniform_buffer {
        out.push(BindGroupSlot::UniformBuffer);
    }
    assert(out@ =~= (if uses_uniform_buffer {
        seq![BindGroupSlot::Textures, BindGroupSlot::Camera, BindGroupSlot::UniformBuffer]
    } else {
        seq![BindGroupSlot::Textures, BindGroupSlot::Camera]
    }));
    out
}

/// The error for a shader file that could not be read.
pub fn shader_load_error(shader_path: &str) -> (r: PipelineError)
    ensures
        r matches PipelineError::PathNotFound(message) && message@ == "Failed to read shader file at path: "@
            + shader_path@,
{
    let mut message = String::from_str("Failed to read shader file at path: ");
    message.append(shader_path);
    PipelineError::PathNotFound(message)
}

} // verus!
