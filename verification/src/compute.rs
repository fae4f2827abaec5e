use vstd::prelude::*;

verus! {

/// Why compute results could not be read back.
#[derive(Debug, PartialEq, Eq, Structural, Clone, Copy)]
pub enum ComputeError {
    InvalidCast,
    BufferMapError,
    AssetIsNotBuffer,
}

/// An output of a compute shader: a buffer of the given byte size, or a
/// texture of the given width and height.
#[derive(Debug, Clone, Copy)]
pub enum ComputeOutput {
    Array(u64),
    Texture((u32, u32)),
}

/// Where an input texture comes from: a file, or blank with the given size.
#[derive(Debug)]
pub enum ComputeTextureData {
    Path(String),
    Dimensions((u32, u32)),
}

/// An input of a compute shader: an array of data, or a texture and
/// whether the shader writes to it.
pub enum ComputeData<'a, T> {
    ArrayData(&'a [T]),
    TextureData((ComputeTextureData, bool)),
}

/// The inputs and outputs of a compute shader.
pub struct ComputePipelineType<'a, T> {
    pub input_data: Vec<ComputeData<'a, T>>,
    pub output_data_type: Vec<ComputeOutput>,
}

/// What a binding of a compute bind group holds.
#[derive(Debug, PartialEq, Eq, Structural, Clone, Copy)]
pub enum ComputeBindingKind {
    StorageBuffer,
    ReadWriteStorageTexture,
    SampledTexture,
}

/// One entry of a compute bind group layout.
#[derive(Debug, PartialEq, Eq, Structural, Clone, Copy)]
pub struct ComputeLayoutEntry {
    pub binding: u32,
    pub kind: ComputeBindingKind,
}

/// The binding kind of an input: arrays are storage buffers; textures are
/// read-write storage textures where the shader writes them, sampled otherwise.
pub open spec fn input_binding_kind<T>(d: ComputeData<T>) -> ComputeBindingKind {
    match d {
        ComputeData::ArrayData(_) => ComputeBindingKind::StorageBuffer,
        ComputeData::TextureData((_, is_write)) => if is_write {
            ComputeBindingKind::ReadWriteStorageTexture
        } else {
            ComputeBindingKind::SampledTexture
        },
    }
}

/// The binding kind of an output: arrays are storage buffers, textures are
/// read-write storage textures.
pub open spec fn output_binding_kind(o: ComputeOutput) -> ComputeBindingKind {
    match o {
        ComputeOutput::Array(_) => ComputeBindingKind::StorageBuffer,
        ComputeOutput::Texture(_) => ComputeBindingKind::ReadWriteStorageTexture,
    }
}

/// The bind group layout of a compute shader: inputs first, then outputs,
/// numbered in that order.
pub fn compute_layout_entries<T>(pipeline_type: &ComputePipelineType<T>) -> (r: Vec<
    ComputeLayoutEntry,
>)
    ensures
        r@.len() == pipeline_type.input_data@.len() + pipeline_type.output_data_type@.len(),
        forall|i: int|
            0 <= i < pipeline_type.input_data@.len() ==> #[trigger] r@[i] == (ComputeLayoutEntry {
                binding: i as u32,
                kind: input_binding_kind(pipeline_type.input_data@[i]),
            }),
        forall|j: int|
            0 <= j < pipeline_type.output_data_type@.len() ==> #[trigger] r@[
                pipeline_type.input_data@.len() + j
            ] == (ComputeLayoutEntry {
                binding: (pipeline_type.input_data@.len() + j) as u32,
                kind: output_binding_kind(pipeline_type.output_data_type@[j]),
            }),
{
    let inputs = &pipeline_type.input_data;
    let outputs = &pipeline_type.output_data_type;
    let mut entries: Vec<ComputeLayoutEntry> = Vec::new();
    let mut i: usize = 0;
    while i < inputs.len()
        invariant
            i <= inputs@.len(),
            entries@.len() == i,
            forall|k: int|
                0 <= k < i ==> #[trigger] entries@[k] == (ComputeLayoutEntry {
                    binding: k as u32,
                    kind: input_binding_kind(inputs@[k]),
                }),
        decreases inputs@.len() - i,
    {
        let kind = match &inputs[i] {
            ComputeData::ArrayData(_) => ComputeBindingKind::StorageBuffer,
            ComputeData::TextureData((_, is_write)) => if *is_write {
                ComputeBindingKind::ReadWriteStorageTexture
            } else {
                ComputeBindingKind::SampledTexture
            },
        };
        entries.push(ComputeLayoutEntry { binding: i as u32, kind });
        i = i + 1;
    }
    let input_len = inputs.len();
    let mut j: usize = 0;
    while j < outputs.len()
        invariant
            input_len == inputs@.len(),
            j <= outputs@.len(),
            entries@.len() == input_len + j,
            forall|k: int|
                0 <= k < input_len ==> #[trigger] entries@[k] == (ComputeLayoutEntry {
                    binding: k as u32,
                    kind: input_binding_kind(inputs@[k]),
                }),
            forall|k: int|
                0 <= k < j ==> #[trigger] entries@[input_len + k] == (ComputeLayoutEntry {
                    binding: (input_len + k) as u32,
                    kind: output_binding_kind(outputs@[k]),
                }),
        decreases outputs@.len() - j,
    {
        let kind = match &outputs[j] {
            ComputeOutput::Array(_) => ComputeBindingKind::StorageBuffer,
            ComputeOutput::Texture(_) => ComputeBindingKind::ReadWriteStorageTexture,
        };
        let binding = (input_len as u128 + j as u128) as u32;
        entries.push(ComputeLayoutEntry { binding, kind });
        j = j + 1;
    }
    entries
}

/// How to make one asset of a compute shader; `index` counts within the
/// inputs or within the outputs and names the asset in labels.
#[derive(Debug)]
pub enum ComputeAssetPlan {
    /// A storage buffer filled with the input array `index`.
    ArrayBuffer { index: usize },
    /// A texture loaded from the file at `path`.
    TextureFromFile { path: String },
    /// A blank input texture of the given size.
    BlankInputTexture { index: usize, width: u32, height: u32 },
    /// A readable storage buffer of `size` bytes for output `index`.
    OutputBuffer { index: usize, size: u64 },
    /// A blank output texture of the given size.
    BlankOutputTexture { index: usize, width: u32, height: u32 },
}

/// How input `i` is made.
pub open spec fn input_asset_plan<T>(d: ComputeData<T>, i: int) -> ComputeAssetPlan {
    match d {
        ComputeData::ArrayData(_) => ComputeAssetPlan::ArrayBuffer { index: i as usize },
        ComputeData::TextureData((ComputeTextureData::Path(p), _)) => ComputeAssetPlan::TextureFromFile {
            path: p,
        },
        ComputeData::TextureData((ComputeTextureData::Dimensions((w, h)), _)) => ComputeAssetPlan::BlankInputTexture { index: i as usize, width: w, height: h },
    }
}

/// How output `j` is made.
pub open spec fn output_asset_plan(o: ComputeOutput, j: int) -> ComputeAssetPlan {
    match o {
        ComputeOutput::Array(size) => ComputeAssetPlan::OutputBuffer { index: j as usize, size },
        ComputeOutput::Texture((w, h)) => ComputeAssetPlan::BlankOutputTexture {
            index: j as usize,
            width: w,
            height: h,
        },
    }
}

/// Each input is made by its kind: an array becomes the storage buffer of
/// its position, a texture path is loaded from that path, and a blank input
/// texture has the width and the height given, in that order; likewise each
/// output becomes a buffer of its byte size or a blank texture of its width
/// and height.
pub proof fn law_asset_plan_keeps_sizes<T>(inputs: Seq<ComputeData<T>>, outputs: Seq<ComputeOutput>)
    ensures
        forall|i: int|
            0 <= i < inputs.len() ==> match #[trigger] inputs[i] {
                ComputeData::ArrayData(_) => input_asset_plan(inputs[i], i)
                    == ComputeAssetPlan::ArrayBuffer { index: i as usize },
                ComputeData::TextureData((ComputeTextureData::Path(p), _)) => input_asset_plan(
                    inputs[i],
                    i,
                ) == ComputeAssetPlan::TextureFromFile { path: p },
                ComputeData::TextureData((ComputeTextureData::Dimensions((w, h)), _)) => input_asset_plan(
                    inputs[i],
                    i,
                ) == ComputeAssetPlan::BlankInputTexture {
                    index: i as usize,
                    width: w,
                    height: h,
                },
            },
        forall|j: int|
            0 <= j < outputs.len() ==> match #[trigger] outputs[j] {
                ComputeOutput::Array(size) => output_asset_plan(outputs[j], j)
                    == ComputeAssetPlan::OutputBuffer { index: j as usize, size },
                ComputeOutput::Texture((w, h)) => output_asset_plan(outputs[j], j)
                    == ComputeAssetPlan::BlankOutputTexture { index: j as usize, width: w, height: h },
            },
{
}

/// How to make the assets of a compute shader: one per input, then one per output.
pub fn compute_asset_plan<T>(pipeline_type: &ComputePipelineType<T>) -> (r: Vec<ComputeAssetPlan>)
    ensures
        r@.len() == pipeline_type.input_data@.len() + pipeline_type.output_data_type@.len(),
        forall|i: int|
            0 <= i < pipeline_type.input_data@.len() ==> #[trigger] r@[i] == input_asset_plan(
                pipeline_type.input_data@[i],
                i,
            ),
        forall|j: int|
            0 <= j < pipeline_type.output_data_type@.len() ==> #[trigger] r@[
                pipeline_type.input_data@.len() + j
            ] == output_asset_plan(pipeline_type.output_data_type@[j], j),
        forall|i: int|
            #![trigger r@[i]]
            0 <= i < pipeline_type.input_data@.len() ==> (pipeline_type.input_data@[i] matches ComputeData::TextureData(
                (ComputeTextureData::Dimensions((w, h)), _),
            ) ==> r@[i] == ComputeAssetPlan::BlankInputTexture {
                index: i as usize,
                width: w,
                height: h,
            }),
        forall|j: int|
            #![trigger r@[pipeline_type.input_data@.len() + j]]
            0 <= j < pipeline_type.output_data_type@.len() ==> (
            pipeline_type.output_data_type@[j] matches ComputeOutput::Texture((w, h))
                ==> r@[pipeline_type.input_data@.len() + j] == ComputeAssetPlan::BlankOutputTexture {
                index: j as usize,
                width: w,
                height: h,
            }),
{
    proof {
        law_asset_plan_keeps_sizes(pipeline_type.input_data@, pipeline_type.output_data_type@);
    }
    let inputs = &pipeline_type.input_data;
    let outputs = &pipeline_type.output_data_type;
    let mut plan: Vec<ComputeAssetPlan> = Vec::new();
    let mut i: usize = 0;
    while i < inputs.len()
        invariant
            i <= inputs@.len(),
            plan@.len() == i,
            forall|k: int| 0 <= k < i ==> #[trigger] plan@[k] == input_asset_plan(inputs@[k], k),
        decreases inputs@.len() - i,
    {
        let step = match &inputs[i] {
            ComputeData::ArrayData(_) => ComputeAssetPlan::ArrayBuffer { index: i },
            ComputeData::TextureData((ComputeTextureData::Path(path), _)) => ComputeAssetPlan::TextureFromFile { path: path.clone() },
            ComputeData::TextureData((ComputeTextureData::Dimensions((width, height)), _)) => {
                ComputeAssetPlan::BlankInputTexture { index: i, width: *width, height: *height }
            },
        };
        plan.push(step);
        i = i + 1;
    }
    let input_len = inputs.len();
    let mut j: usize = 0;
    while j < outputs.len()
        invariant
            input_len == inputs@.len(),
            j <= outputs@.len(),
            plan@.len() == input_len + j,
            forall|k: int|
                0 <= k < input_len ==> #[trigger] plan@[k] == input_asset_plan(inputs@[k], k),
            forall|k: int|
                0 <= k < j ==> #[trigger] plan@[input_len + k] == output_asset_plan(outputs@[k], k),
        decreases outputs@.len() - j,
    {
        let step = match &outputs[j] {
            ComputeOutput::Array(size) => ComputeAssetPlan::OutputBuffer { index: j, size: *size },
            ComputeOutput::Texture((width, height)) => ComputeAssetPlan::BlankOutputTexture {
                index: j,
                width: *width,
                height: *height,
            },
        };
        plan.push(step);
        j = j + 1;
    }
    plan
}

/// The assets after replacing, in turn, asset `p.1` with `p.0` for each pair `p`.
pub open spec fn assets_replaced<A>(assets: Seq<A>, replacements: Seq<(A, usize)>) -> Seq<A>
    decreases replacements.len(),
{
    if replacements.len() == 0 {
        assets
    } else {
        assets_replaced(
            assets.update(replacements[0].1 as int, replacements[0].0),
            replacements.drop_first(),
        )
    }
}

/// Puts each new asset in place of the one at its index, in order.
pub fn replace_pipeline_assets<A>(assets: &mut Vec<A>, new_assets: Vec<(A, usize)>)
    requires
        forall|k: int| 0 <= k < new_assets@.len() ==> (#[trigger] new_assets@[k]).1 < old(assets)@.len(),
    ensures
        final(assets)@ == assets_replaced(old(assets)@, new_assets@),
{
    let ghost target = assets_replaced(assets@, new_assets@);
    let mut rest = new_assets;
    while rest.len() > 0
        invariant
            forall|k: int| 0 <= k < rest@.len() ==> (#[trigger] rest@[k]).1 < assets@.len(),
            target == assets_replaced(assets@, rest@),
        decreases rest@.len(),
    {
        let ghost before = rest@;
        let (asset, index) = rest.remove(0);
        assert(before[0] == (asset, index));
        assert(before.drop_first() =~= rest@);
        assets.set(index, asset);
        assert forall|k: int| 0 <= k < rest@.len() implies (#[trigger] rest@[k]).1 < assets@.len() by {
            assert(rest@[k] == before[k + 1]);
        }
    }
}

/// The outcome of reading an output array back: it must be a buffer, the
/// mapping must succeed, and the bytes must cast to the element type.
pub fn array_read_outcome(is_buffer: bool, mapped: bool, cast_ok: bool) -> (r: Result<(), ComputeError>)
    ensures
        r == (if !is_buffer {
            Err(ComputeError::AssetIsNotBuffer)
        } else if !mapped {
            Err(ComputeError::BufferMapError)
        } else if !cast_ok {
            Err(ComputeError::InvalidCast)
        } else {
            Ok(())
        }),
{
    if is_buffer {
        if mapped {
            if cast_ok {
                Ok(())
            } else {
                Err(ComputeError::InvalidCast)
            }
        } else {
            Err(ComputeError::BufferMapError)
        }
    } else {
        Err(ComputeError::AssetIsNotBuffer)
    }
}

/// The asset made for an input or output fits the binding it is bound to:
/// buffers go with storage-buffer bindings, textures with texture bindings.
pub proof fn law_assets_fit_bindings<T>(d: ComputeData<T>, o: ComputeOutput, i: int, j: int)
    ensures
        (input_asset_plan(d, i) is ArrayBuffer) <==> input_binding_kind(d)
            == ComputeBindingKind::StorageBuffer,
        (output_asset_plan(o, j) is OutputBuffer) <==> output_binding_kind(o)
            == ComputeBindingKind::StorageBuffer,
{
}

/// Array inputs and outputs are bound as storage buffers; an input texture
/// is bound as a read-write storage texture exactly where the shader writes
/// it, and sampled otherwise; an output texture is always read-write.
pub proof fn law_binding_kinds<T>(d: ComputeData<T>, o: ComputeOutput)
    ensures
        d is ArrayData ==> input_binding_kind(d) == ComputeBindingKind::StorageBuffer,
        d matches ComputeData::TextureData((_, w)) ==> input_binding_kind(d) == (if w {
            ComputeBindingKind::ReadWriteStorageTexture
        } else {
            ComputeBindingKind::SampledTexture
        }),
        o is Array ==> output_binding_kind(o) == ComputeBindingKind::StorageBuffer,
        o is Texture ==> output_binding_kind(o) == ComputeBindingKind::ReadWriteStorageTexture,
{
}

/// The last replacement takes effect: its asset ends up at its index.
pub proof fn law_last_replacement_wins<A>(assets: Seq<A>, replacements: Seq<(A, usize)>)
    requires
        replacements.len() > 0,
        forall|r: int| 0 <= r < replacements.len() ==> (#[trigger] replacements[r]).1 < assets.len(),
    ensures
        assets_replaced(assets, replacements)[replacements.last().1 as int] == replacements.last().0,
    decreases replacements.len(),
{
    let next = assets.update(replacements[0].1 as int, replacements[0].0);
    let rest = replacements.drop_first();
    if rest.len() > 0 {
        assert forall|r: int| 0 <= r < rest.len() implies (#[trigger] rest[r]).1 < next.len() by {
            assert(rest[r] == replacements[r + 1]);
        }
        assert(rest.last() == replacements.last());
        law_last_replacement_wins(next, rest);
    } else {
        assert(assets_replaced(next, rest) == next);
        assert(replacements.last() == replacements[0]);
    }
    assert(assets_replaced(assets, replacements) == assets_replaced(next, rest));
}

/// Replacing assets keeps their number, and an asset that no replacement
/// names stays where it is.
pub proof fn law_replacement_keeps_others<A>(assets: Seq<A>, replacements: Seq<(A, usize)>, k: int)
    requires
        forall|r: int| 0 <= r < replacements.len() ==> (#[trigger] replacements[r]).1 < assets.len(),
        0 <= k < assets.len(),
        forall|r: int| 0 <= r < replacements.len() ==> (#[trigger] replacements[r]).1 != k,
    ensures
        assets_replaced(assets, replacements).len() == assets.len(),
        assets_replaced(assets, replacements)[k] == assets[k],
    decreases replacements.len(),
{
    if replacements.len() > 0 {
        let next = assets.update(replacements[0].1 as int, replacements[0].0);
        let rest = replacements.drop_first();
        assert forall|r: int| 0 <= r < rest.len() implies (#[trigger] rest[r]).1 < next.len() by {
            assert(rest[r] == replacements[r + 1]);
        }
        assert forall|r: int| 0 <= r < rest.len() implies (#[trigger] rest[r]).1 != k by {
            assert(rest[r] == replacements[r + 1]);
        }
        law_replacement_keeps_others(next, rest, k);
    }
}

} // verus!
