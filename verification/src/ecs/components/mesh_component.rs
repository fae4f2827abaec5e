use vstd::prelude::*;

verus! {

/// Why a mesh could not be loaded from an OBJ file.
#[derive(Debug, PartialEq, Eq, Structural, Clone, Copy)]
pub enum MeshComponentError {
    FailedToLoadObj,
    FailedToLoadMtl,
}

/// One vertex as an OBJ file gives it: position, normal and texture coordinates.
pub struct ObjVertex<T> {
    pub position: [T; 3],
    pub normal: [T; 3],
    pub tex_coords: [T; 2],
}

/// Whether a loaded OBJ file can become a mesh: the file itself must have
/// loaded, and its materials too where they are expected.
pub fn check_obj_load(obj_loaded: bool, materials_loaded: bool, expect_material: bool) -> (r:
    Result<(), MeshComponentError>)
    ensures
        r == (if !obj_loaded {
            Err(MeshComponentError::FailedToLoadObj)
        } else if !materials_loaded && expect_material {
            Err(MeshComponentError::FailedToLoadMtl)
        } else {
            Ok(())
        }),
{
    if obj_loaded {
        if !materials_loaded && expect_material {
            return Err(MeshComponentError::FailedToLoadMtl);
        }
        return Ok(());
    }
    Err(MeshComponentError::FailedToLoadObj)
}

/// Vertex `i` of a mesh given as flat arrays: three positions, three
/// normals and two texture coordinates per vertex.
pub open spec fn obj_vertex_at<T>(
    positions: Seq<T>,
    normals: Seq<T>,
    texcoords: Seq<T>,
    i: int,
) -> (Seq<T>, Seq<T>, Seq<T>) {
    (
        seq![positions[3 * i], positions[3 * i + 1], positions[3 * i + 2]],
        seq![normals[3 * i], normals[3 * i + 1], normals[3 * i + 2]],
        seq![texcoords[2 * i], texcoords[2 * i + 1]],
    )
}

/// Splits the flat arrays of a mesh into vertices: one for every whole
/// triple of positions.
pub fn mesh_vertices<T: Copy>(positions: &Vec<T>, normals: &Vec<T>, texcoords: &Vec<T>) -> (r: Vec<
    ObjVertex<T>,
>)
    requires
        normals@.len() >= 3 * (positions@.len() / 3),
        texcoords@.len() >= 2 * (positions@.len() / 3),
    ensures
        r@.len() == positions@.len() / 3,
        forall|i: int|
            0 <= i < r@.len() ==> ((#[trigger] r@[i]).position@, r@[i].normal@, r@[i].tex_coords@)
                == obj_vertex_at(positions@, normals@, texcoords@, i),
{
    let count = positions.len() / 3;
    let mut out: Vec<ObjVertex<T>> = Vec::new();
    let mut i: usize = 0;
    while i < count
        invariant
            count == positions@.len() / 3,
            positions.len() == positions@.len(),
            normals.len() == normals@.len(),
            texcoords.len() == texcoords@.len(),
            normals@.len() >= 3 * count,
            texcoords@.len() >= 2 * count,
            i <= count,
            out@.len() == i,
            forall|j: int|
                0 <= j < i ==> ((#[trigger] out@[j]).position@, out@[j].normal@, out@[j].tex_coords@)
                    == obj_vertex_at(positions@, normals@, texcoords@, j),
        decreases count - i,
    {
        assert(3 * i + 2 < positions@.len()) by (nonlinear_arith)
            requires
                i < count,
                count == positions@.len() / 3,
        ;
        assert(3 * i + 2 < normals@.len()) by (nonlinear_arith)
            requires
                i < count,
                normals@.len() >= 3 * count,
        ;
        assert(2 * i + 1 < texcoords@.len()) by (nonlinear_arith)
            requires
                i < count,
                texcoords@.len() >= 2 * count,
        ;
        let v = ObjVertex {
            position: [positions[3 * i], positions[3 * i + 1], positions[3 * i + 2]],
            normal: [normals[3 * i], normals[3 * i + 1], normals[3 * i + 2]],
            tex_coords: [texcoords[2 * i], texcoords[2 * i + 1]],
        };
        assert(v.position@ =~= obj_vertex_at(positions@, normals@, texcoords@, i as int).0);
        assert(v.normal@ =~= obj_vertex_at(positions@, normals@, texcoords@, i as int).1);
        assert(v.tex_coords@ =~= obj_vertex_at(positions@, normals@, texcoords@, i as int).2);
        out.push(v);
        i = i + 1;
    }
    out
}

/// Vertex `i` takes positions and normals `3i`, `3i + 1`, `3i + 2` and
/// texture coordinates `2i`, `2i + 1`, each from its own array.
pub proof fn law_vertex_takes_its_own_slices<T>(
    positions: Seq<T>,
    normals: Seq<T>,
    texcoords: Seq<T>,
    i: int,
)
    requires
        0 <= i,
        3 * i + 3 <= positions.len(),
        3 * i + 3 <= normals.len(),
        2 * i + 2 <= texcoords.len(),
    ensures
        obj_vertex_at(positions, normals, texcoords, i).0 == positions.subrange(3 * i, 3 * i + 3),
        obj_vertex_at(positions, normals, texcoords, i).1 == normals.subrange(3 * i, 3 * i + 3),
        obj_vertex_at(positions, normals, texcoords, i).2 == texcoords.subrange(2 * i, 2 * i + 2),
{
    assert(obj_vertex_at(positions, normals, texcoords, i).0 =~= positions.subrange(3 * i, 3 * i + 3));
    assert(obj_vertex_at(positions, normals, texcoords, i).1 =~= normals.subrange(3 * i, 3 * i + 3));
    assert(obj_vertex_at(positions, normals, texcoords, i).2 =~= texcoords.subrange(2 * i, 2 * i + 2));
}

} // verus!
