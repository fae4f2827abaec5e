use vstd::prelude::*;

use crate::pipeline::{LayoutBinding, PipelineType, TextureBindingKind};

verus! {

/// The pipeline a material needs: none of its textures, a diffuse texture,
/// or a diffuse and a normal texture (a normal texture alone counts for nothing).
pub open spec fn pipeline_type_for(has_diffuse: bool, has_normal: bool) -> PipelineType {
    if has_diffuse {
        if has_normal {
            PipelineType::NormalDiffuseTexture
        } else {
            PipelineType::DiffuseTexture
        }
    } else {
        PipelineType::Plain
    }
}

/// Computes `pipeline_type_for`.
pub fn material_pipeline_type(has_diffuse: bool, has_normal: bool) -> (r: PipelineType)
    ensures
        r == pipeline_type_for(has_diffuse, has_normal),
{
    let mut pipeline_type = PipelineType::Plain;
    if has_diffuse {
        if has_normal {
            pipeline_type = PipelineType::NormalDiffuseTexture;
        } else {
            pipeline_type = PipelineType::DiffuseTexture;
        }
    }
    pipeline_type
}

/// The bind group layout of a material: texture and sampler of the diffuse
/// texture at bindings 0 and 1, and, where there is also a normal texture,
/// its texture and sampler at 2 and 3. Without a diffuse texture it is empty.
pub open spec fn material_layout_for(has_diffuse: bool, has_normal: bool) -> Seq<LayoutBinding> {
    (if has_diffuse {
        if has_normal {
            seq![
                LayoutBinding { binding: 0, kind: TextureBindingKind::Texture },
                LayoutBinding { binding: 1, kind: TextureBindingKind::Sampler },
                LayoutBinding { binding: 2, kind: TextureBindingKind::Texture },
                LayoutBinding { binding: 3, kind: TextureBindingKind::Sampler },
            ]
        } else {
            seq![
                LayoutBinding { binding: 0, kind: TextureBindingKind::Texture },
                LayoutBinding { binding: 1, kind: TextureBindingKind::Sampler },
            ]
        }
    } else {
        Seq::empty()
    })
}

/// The entries of a material's bind group: view and sampler of the diffuse
/// texture at 0 and 1 where there is one, then view and sampler of the normal
/// texture at 2 and 3 where there is one.
pub open spec fn material_bind_group_for(has_diffuse: bool, has_normal: bool) -> Seq<LayoutBinding> {
    (if has_diffuse {
        seq![
            LayoutBinding { binding: 0, kind: TextureBindingKind::Texture },
            LayoutBinding { binding: 1, kind: TextureBindingKind::Sampler },
        ]
    } else {
        Seq::empty()
    }) + (if has_normal {
        seq![
            LayoutBinding { binding: 2, kind: TextureBindingKind::Texture },
            LayoutBinding { binding: 3, kind: TextureBindingKind::Sampler },
        ]
    } else {
        Seq::empty()
    })
}

/// Computes `material_layout_for`.
pub fn material_layout_bindings(has_diffuse: bool, has_normal: bool) -> (r: Vec<LayoutBinding>)
    ensures
        r@ == material_layout_for(has_diffuse, has_normal),
{
    let mut entries: Vec<LayoutBinding> = Vec::new();
    if has_diffuse {
        entries.push(LayoutBinding { binding: 0, kind: TextureBindingKind::Texture });
        entries.push(LayoutBinding { binding: 1, kind: TextureBindingKind::Sampler });
        if has_normal {
            entries.push(LayoutBinding { binding: 2, kind: TextureBindingKind::Texture });
            entries.push(LayoutBinding { binding: 3, kind: TextureBindingKind::Sampler });
        }
    }
    assert(entries@ =~= material_layout_for(has_diffuse, has_normal));
    entries
}

/// Computes `material_bind_group_for`.
pub fn material_bind_group_bindings(has_diffuse: bool, has_normal: bool) -> (r: Vec<LayoutBinding>)
    ensures
        r@ == material_bind_group_for(has_diffuse, has_normal),
{
    let mut entries: Vec<LayoutBinding> = Vec::new();
    if has_diffuse {
        entries.push(LayoutBinding { binding: 0, kind: TextureBindingKind::Texture });
        entries.push(LayoutBinding { binding: 1, kind: TextureBindingKind::Sampler });
    }
    if has_normal {
        entries.push(LayoutBinding { binding: 2, kind: TextureBindingKind::Texture });
        entries.push(LayoutBinding { binding: 3, kind: TextureBindingKind::Sampler });
    }
    assert(entries@ =~= material_bind_group_for(has_diffuse, has_normal));
    entries
}

/// A material: its textures, the GPU objects built from them (`gpu`), the
/// pipeline it needs and its place among the materials of its kind.
pub struct Material<T, G> {
    pub name: String,
    pub diffuse_texture: Option<T>,
    pub normal_texture: Option<T>,
    pub gpu: G,
    pub pipeline_type: PipelineType,
    pub material_index: u32,
}

/// The kind of a material, by the textures it has.
pub open spec fn texture_class<T, G>(m: Material<T, G>) -> PipelineType {
    pipeline_type_for(m.diffuse_texture is Some, m.normal_texture is Some)
}

impl<T, G> Material<T, G> {
    /// A material whose pipeline follows from the textures it has.
    pub fn new(
        name: &str,
        diffuse_texture: Option<T>,
        normal_texture: Option<T>,
        gpu: G,
        material_index: u32,
    ) -> (r: Self)
        ensures
            r.name@ == name@,
            r.diffuse_texture == diffuse_texture,
            r.normal_texture == normal_texture,
            r.gpu == gpu,
            r.pipeline_type == pipeline_type_for(diffuse_texture is Some, normal_texture is Some),
            r.material_index == material_index,
    {
        let pipeline_type = material_pipeline_type(
            diffuse_texture.is_some(),
            normal_texture.is_some(),
        );
        Material {
            name: String::from_str(name),
            diffuse_texture,
            normal_texture,
            gpu,
            pipeline_type,
            material_index,
        }
    }
}

/// The materials, kept apart by the textures they have.
pub struct MaterialManager<T, G> {
    pub plain_materials: Vec<Material<T, G>>,
    pub diffuse_texture_materials: Vec<Material<T, G>>,
    pub diffuse_normal_texture_materials: Vec<Material<T, G>>,
}

impl<T, G> MaterialManager<T, G> {
    /// A manager with no materials.
    pub fn init() -> (r: Self)
        ensures
            r.plain_materials@ == Seq::<Material<T, G>>::empty(),
            r.diffuse_texture_materials@ == Seq::<Material<T, G>>::empty(),
            r.diffuse_normal_texture_materials@ == Seq::<Material<T, G>>::empty(),
    {
        MaterialManager {
            plain_materials: Vec::new(),
            diffuse_texture_materials: Vec::new(),
            diffuse_normal_texture_materials: Vec::new(),
        }
    }

    /// The index a new material gets: the number of materials of its kind
    /// (as a `u32`, wrapping).
    pub fn next_material_index(&self, has_diffuse: bool, has_normal: bool) -> (r: u32)
        ensures
            r == (if has_diffuse {
                if has_normal {
                    self.diffuse_normal_texture_materials@.len() as u32
                } else {
                    self.diffuse_texture_materials@.len() as u32
                }
            } else {
                self.plain_materials@.len() as u32
            }),
    {
        let mut material_index = self.plain_materials.len() as u32;
        if has_diffuse {
            material_index = self.diffuse_texture_materials.len() as u32;
            if has_normal {
                material_index = self.diffuse_normal_texture_materials.len() as u32;
            }
        }
        material_index
    }

    /// A new material with the index of `next_material_index`; it is not added.
    pub fn new_material(
        &mut self,
        name: &str,
        diffuse_texture: Option<T>,
        normal_texture: Option<T>,
        gpu: G,
    ) -> (r: Material<T, G>)
        ensures
            *final(self) == *old(self),
            r.name@ == name@,
            r.diffuse_texture == diffuse_texture,
            r.normal_texture == normal_texture,
            r.gpu == gpu,
            r.pipeline_type == pipeline_type_for(diffuse_texture is Some, normal_texture is Some),
            r.material_index == (if diffuse_texture is Some {
                if normal_texture is Some {
                    old(self).diffuse_normal_texture_materials@.len() as u32
                } else {
                    old(self).diffuse_texture_materials@.len() as u32
                }
            } else {
                old(self).plain_materials@.len() as u32
            }),
    {
        let material_index = self.next_material_index(
            diffuse_texture.is_some(),
            normal_texture.is_some(),
        );
        Material::new(name, diffuse_texture, normal_texture, gpu, material_index)
    }

    /// Files each material, in order, under its kind.
    pub fn add_materials(&mut self, materials: Vec<Material<T, G>>)
        ensures
            final(self).plain_materials@ == old(self).plain_materials@ + materials@.filter(
                |m: Material<T, G>| texture_class(m) == PipelineType::Plain,
            ),
            final(self).diffuse_texture_materials@ == old(self).diffuse_texture_materials@
                + materials@.filter(
                |m: Material<T, G>| texture_class(m) == PipelineType::DiffuseTexture,
            ),
            final(self).diffuse_normal_texture_materials@
                == old(self).diffuse_normal_texture_materials@ + materials@.filter(
                |m: Material<T, G>| texture_class(m) == PipelineType::NormalDiffuseTexture,
            ),
    {
        let ghost orig = materials@;
        let ghost p0 = |m: Material<T, G>| texture_class(m) == PipelineType::Plain;
        let ghost p1 = |m: Material<T, G>| texture_class(m) == PipelineType::DiffuseTexture;
        let ghost p2 = |m: Material<T, G>| texture_class(m) == PipelineType::NormalDiffuseTexture;
        let mut rest = materials;
        let total = rest.len();
        let mut taken: usize = 0;
        while rest.len() > 0
            invariant
                p0 == (|m: Material<T, G>| texture_class(m) == PipelineType::Plain),
                p1 == (|m: Material<T, G>| texture_class(m) == PipelineType::DiffuseTexture),
                p2 == (|m: Material<T, G>| texture_class(m) == PipelineType::NormalDiffuseTexture),
                orig.len() == total,
                taken <= total,
                rest@ == orig.skip(taken as int),
                self.plain_materials@ == old(self).plain_materials@ + orig.take(
                    taken as int,
                ).filter(p0),
                self.diffuse_texture_materials@ == old(self).diffuse_texture_materials@
                    + orig.take(taken as int).filter(p1),
                self.diffuse_normal_texture_materials@
                    == old(self).diffuse_normal_texture_materials@ + orig.take(
                    taken as int,
                ).filter(p2),
            decreases rest@.len(),
        {
            assert(rest@.len() == total - taken);
            let material = rest.remove(0);
            proof {
                assert(orig[taken as int] == material);
                assert(orig.take(taken + 1).drop_last() =~= orig.take(taken as int));
                assert(orig.skip(taken + 1) =~= rest@);
                reveal(Seq::filter);
            }
            let ghost before0 = self.plain_materials@;
            let ghost before1 = self.diffuse_texture_materials@;
            let ghost before2 = self.diffuse_normal_texture_materials@;
            if material.diffuse_texture.is_some() {
                if material.normal_texture.is_some() {
                    self.diffuse_normal_texture_materials.push(material);
                } else {
                    self.diffuse_texture_materials.push(material);
                }
            } else {
                self.plain_materials.push(material);
            }
            proof {
                assert(self.plain_materials@ =~= old(self).plain_materials@ + orig.take(
                    taken + 1,
                ).filter(p0));
                assert(self.diffuse_texture_materials@ =~= old(self).diffuse_texture_materials@
                    + orig.take(taken + 1).filter(p1));
                assert(self.diffuse_normal_texture_materials@
                    =~= old(self).diffuse_normal_texture_materials@ + orig.take(taken + 1).filter(
                    p2,
                ));
            }
            taken = taken + 1;
        }
        assert(orig.take(total as int) =~= orig);
    }
}

/// Every material has exactly one kind, so filing a list of materials by
/// kind puts each of them in exactly one list.
pub proof fn law_materials_partitioned<T, G>(materials: Seq<Material<T, G>>)
    ensures
        materials.filter(|m: Material<T, G>| texture_class(m) == PipelineType::Plain).len()
            + materials.filter(|m: Material<T, G>| texture_class(m) == PipelineType::DiffuseTexture).len()
            + materials.filter(
            |m: Material<T, G>| texture_class(m) == PipelineType::NormalDiffuseTexture,
        ).len() == materials.len(),
    decreases materials.len(),
{
    reveal(Seq::filter);
    if materials.len() > 0 {
        law_materials_partitioned(materials.drop_last());
    }
}

/// The number of textures a pipeline of this kind samples.
pub open spec fn textures_of(t: PipelineType) -> int {
    match t {
        PipelineType::Plain => 0,
        PipelineType::DiffuseTexture => 1,
        PipelineType::NormalDiffuseTexture => 2,
    }
}

/// A material's bind group layout has a texture and a sampler entry for
/// each texture that its pipeline samples.
pub proof fn law_layout_matches_pipeline_type(has_diffuse: bool, has_normal: bool)
    ensures
        material_layout_for(has_diffuse, has_normal).len() == 2 * textures_of(
            pipeline_type_for(has_diffuse, has_normal),
        ),
{
}

/// A material's bind group matches its layout entry for entry, except for a
/// normal texture without a diffuse one, which the layout leaves out.
pub proof fn law_bind_group_matches_layout(has_diffuse: bool, has_normal: bool)
    ensures
        (has_diffuse || !has_normal) ==> material_bind_group_for(has_diffuse, has_normal)
            == material_layout_for(has_diffuse, has_normal),
        (!has_diffuse && has_normal) ==> material_layout_for(has_diffuse, has_normal).len() == 0
            && material_bind_group_for(has_diffuse, has_normal).len() == 2,
{
    assert(material_bind_group_for(has_diffuse, has_normal) =~= material_layout_for(has_diffuse, has_normal) || (!has_diffuse && has_normal));
}

/// A material without a diffuse texture uses the plain pipeline; one with a
/// diffuse texture uses the normal-mapped pipeline exactly where it also has
/// a normal texture.
pub proof fn law_pipeline_type_by_textures(has_diffuse: bool, has_normal: bool)
    ensures
        (pipeline_type_for(has_diffuse, has_normal) == PipelineType::Plain) <==> !has_diffuse,
        (pipeline_type_for(has_diffuse, has_normal) == PipelineType::DiffuseTexture) <==> (
        has_diffuse && !has_normal),
        (pipeline_type_for(has_diffuse, has_normal) == PipelineType::NormalDiffuseTexture) <==> (
        has_diffuse && has_normal),
{
}

/// A material's layout numbers its bindings from 0, each texture followed
/// by its sampler; its bind group puts the diffuse texture at 0 and 1 and
/// the normal texture at 2 and 3.
pub proof fn law_material_bindings_numbered(has_diffuse: bool, has_normal: bool)
    ensures
        forall|k: int|
            0 <= k < material_layout_for(has_diffuse, has_normal).len() ==> (
            #[trigger] material_layout_for(has_diffuse, has_normal)[k]).binding == k
                && material_layout_for(has_diffuse, has_normal)[k].kind == (if k % 2 == 0 {
                TextureBindingKind::Texture
            } else {
                TextureBindingKind::Sampler
            }),
        forall|k: int|
            0 <= k < material_bind_group_for(has_diffuse, has_normal).len() ==> (
            #[trigger] material_bind_group_for(has_diffuse, has_normal)[k]).kind == (if k % 2 == 0 {
                TextureBindingKind::Texture
            } else {
                TextureBindingKind::Sampler
            }),
        material_bind_group_for(has_diffuse, has_normal).len() == (if has_diffuse {
            2int
        } else {
            0
        }) + (if has_normal {
            2int
        } else {
            0
        }),
        has_diffuse ==> material_bind_group_for(has_diffuse, has_normal)[0].binding == 0
            && material_bind_group_for(has_diffuse, has_normal)[1].binding == 1,
        has_normal ==> {
            let g = material_bind_group_for(has_diffuse, has_normal);
            g[g.len() - 2].binding == 2 && g[g.len() - 1].binding == 3
        },
{
    let g = material_bind_group_for(has_diffuse, has_normal);
    let d = if has_diffuse {
        seq![
            LayoutBinding { binding: 0, kind: TextureBindingKind::Texture },
            LayoutBinding { binding: 1, kind: TextureBindingKind::Sampler },
        ]
    } else {
        Seq::<LayoutBinding>::empty()
    };
    let n = if has_normal {
        seq![
            LayoutBinding { binding: 2, kind: TextureBindingKind::Texture },
            LayoutBinding { binding: 3, kind: TextureBindingKind::Sampler },
        ]
    } else {
        Seq::<LayoutBinding>::empty()
    };
    assert(g == d + n);
    assert forall|k: int| 0 <= k < g.len() implies (#[trigger] g[k]).kind == (if k % 2 == 0 {
        TextureBindingKind::Texture
    } else {
        TextureBindingKind::Sampler
    }) by {
        if k < d.len() {
            assert(g[k] == d[k]);
        } else {
            assert(g[k] == n[k - d.len()]);
        }
    }
}

} // verus!
