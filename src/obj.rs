//! The face records of a Wavefront OBJ export: 1-based vertex indices, and
//! the material to switch to before a face where the material changes.
use vstd::prelude::*;
use crate::topology::indices_in_bounds;
use crate::types::Mesh;

verus! {

/// One `f` line of an OBJ file, preceded by `usemtl` when `use_material`
/// names a material.
#[derive(Debug, Clone, PartialEq, Eq)]
pub struct ObjFace {
    pub use_material: Option<String>,
    pub indices: Vec<usize>,
}

/// The material of face `i`; a face past the end of the list has none.
pub open spec fn material_at(fm: Seq<Option<String>>, i: int) -> Option<String> {
    if 0 <= i < fm.len() {
        fm[i]
    } else {
        None
    }
}

/// Two material assignments name the same material, or both name none.
pub open spec fn same_material(a: Option<String>, b: Option<String>) -> bool {
    match (a, b) {
        (None, None) => true,
        (Some(x), Some(y)) => x@ == y@,
        _ => false,
    }
}

/// The material the export switches to before face `i`: the face's own
/// material where it has one and it differs from that of the face before
/// (the first face compares with no material).
pub open spec fn switch_at(fm: Seq<Option<String>>, i: int) -> Option<String> {
    let m = material_at(fm, i);
    if m is Some && !same_material(m, material_at(fm, i - 1)) {
        m
    } else {
        None
    }
}

/// The 1-based form of a face's indices.
pub open spec fn one_based(s: Seq<usize>) -> Seq<int> {
    Seq::new(s.len(), |k: int| s[k] + 1)
}

fn same_material_exec(a: &Option<String>, b: &Option<String>) -> (r: bool)
    ensures
        r == same_material(*a, *b),
{
    match (a, b) {
        (None, None) => true,
        (Some(x), Some(y)) => <String as PartialEq>::eq(x, y),
        _ => false,
    }
}

fn material_at_exec(fm: &Vec<Option<String>>, i: usize) -> (r: Option<String>)
    ensures
        r == material_at(fm@, i as int),
{
    if i < fm.len() {
        fm[i].clone()
    } else {
        None
    }
}

/// The OBJ face records of `mesh`, one per face, in order. Every index must
/// be the index of a vertex (see `check_indices`), so that its 1-based form
/// fits.
pub fn obj_faces(mesh: &Mesh) -> (r: Vec<ObjFace>)
    requires
        indices_in_bounds(*mesh),
    ensures
        r@.len() == mesh.faces@.len(),
        forall|i: int|
            0 <= i < r@.len() ==> (#[trigger] r@[i]).use_material == switch_at(
                mesh.face_materials@,
                i,
            ),
        forall|i: int|
            0 <= i < r@.len() ==> (#[trigger] r@[i]).indices@.map_values(|x: usize| x as int)
                == one_based(mesh.faces@[i].indices@),
{
    let fm = &mesh.face_materials;
    let nv = mesh.vertices.len();
    let mut out: Vec<ObjFace> = Vec::new();
    let mut previous: Option<String> = None;
    let mut i: usize = 0;
    while i < mesh.faces.len()
        invariant
            indices_in_bounds(*mesh),
            nv == mesh.vertices@.len(),
            i <= mesh.faces@.len(),
            out@.len() == i,
            previous == material_at(fm@, i - 1),
            forall|j: int|
                0 <= j < i ==> (#[trigger] out@[j]).use_material == switch_at(fm@, j),
            forall|j: int|
                0 <= j < i ==> (#[trigger] out@[j]).indices@.map_values(|x: usize| x as int)
                    == one_based(mesh.faces@[j].indices@),
        decreases mesh.faces@.len() - i,
    {
        let current = material_at_exec(fm, i);
        let use_material = if current.is_some() && !same_material_exec(&current, &previous) {
            current.clone()
        } else {
            None
        };
        let face = &mesh.faces[i].indices;
        let mut indices: Vec<usize> = Vec::new();
        let mut k: usize = 0;
        while k < face.len()
            invariant
                indices_in_bounds(*mesh),
                nv == mesh.vertices@.len(),
                i < mesh.faces@.len(),
                face@ == mesh.faces@[i as int].indices@,
                k <= face@.len(),
                indices@.len() == k,
                forall|j: int| 0 <= j < k ==> #[trigger] indices@[j] == face@[j] + 1,
            decreases face@.len() - k,
        {
            assert(mesh.faces@[i as int].indices@[k as int] < mesh.vertices@.len());
            indices.push(face[k] + 1);
            k = k + 1;
        }
        assert(indices@.map_values(|x: usize| x as int) =~= one_based(face@));
        out.push(ObjFace { use_material, indices });
        previous = current;
        i = i + 1;
    }
    out
}

} // verus!
