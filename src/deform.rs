//! Region-bounded deformations (bend, taper): a vertex is deformed only when
//! its projection on the deformation's axis lies in `[start, end]`; every
//! other vertex keeps its position, normal and texture coordinates bit for bit.
use vstd::prelude::*;
use crate::float::{float_lt, lt_spec};
use crate::types::{Mesh, Vertex};

verus! {

/// `along` lies outside `[start, end]`: IEEE `along < start || along > end`.
/// A NaN projection compares false both ways and so counts as inside.
pub open spec fn outside_region(along: u32, start: u32, end: u32) -> bool {
    lt_spec(along, start) || lt_spec(end, along)
}

/// Whether the projection `along` lies outside `[start, end]`.
pub fn is_outside_region(along: u32, start: u32, end: u32) -> (r: bool)
    ensures
        r == outside_region(along, start, end),
{
    float_lt(along, start) || float_lt(end, along)
}

/// Replaces each vertex whose projection `along[i]` lies in `[start, end]`
/// by what `deform` makes of it, and leaves every other vertex as it was.
/// Faces, materials and the number of vertices do not change.
pub fn deform_region<F: Fn(Vertex) -> Vertex>(
    mesh: &mut Mesh,
    along: &Vec<u32>,
    start: u32,
    end: u32,
    deform: F,
)
    requires
        along@.len() == old(mesh).vertices@.len(),
        forall|v: Vertex| deform.requires((v,)),
    ensures
        final(mesh).vertices@.len() == old(mesh).vertices@.len(),
        final(mesh).faces == old(mesh).faces,
        final(mesh).materials == old(mesh).materials,
        final(mesh).face_materials == old(mesh).face_materials,
        forall|i: int|
            0 <= i < old(mesh).vertices@.len() && outside_region(along@[i], start, end)
                ==> final(mesh).vertices@[i] == old(mesh).vertices@[i],
        forall|i: int|
            0 <= i < old(mesh).vertices@.len() && !outside_region(along@[i], start, end)
                ==> deform.ensures((old(mesh).vertices@[i],), final(mesh).vertices@[i]),
{
    let n = mesh.vertices.len();
    let mut i: usize = 0;
    while i < n
        invariant
            n == old(mesh).vertices@.len(),
            along@.len() == n,
            i <= n,
            forall|v: Vertex| deform.requires((v,)),
            mesh.vertices@.len() == n,
            mesh.faces == old(mesh).faces,
            mesh.materials == old(mesh).materials,
            mesh.face_materials == old(mesh).face_materials,
            forall|j: int|
                0 <= j < n && (i <= j || outside_region(along@[j], start, end))
                    ==> mesh.vertices@[j] == old(mesh).vertices@[j],
            forall|j: int|
                0 <= j < i && !outside_region(along@[j], start, end) ==> deform.ensures(
                    (old(mesh).vertices@[j],),
                    mesh.vertices@[j],
                ),
        decreases n - i,
    {
        if !is_outside_region(along[i], start, end) {
            let v = mesh.vertices[i];
            let bent = deform(v);
            mesh.vertices.set(i, bent);
        }
        i = i + 1;
    }
}

} // verus!
