//! Reflection across one, two or three of the coordinate planes.
use vstd::prelude::*;
use crate::error::Error;
use crate::float::{neg, neg_spec, lemma_neg_involutive, lemma_neg_flips_sign_only};
use crate::model::{Model, Transform};
use crate::types::{Face, Vec3, Vertex};

verus! {

/// Negates the x, y and/or z components of every position and normal. With
/// an odd number of axes the reflection changes handedness, and every face
/// with at least three indices has its winding reversed to keep it facing
/// outward.
#[derive(Debug, Clone, Copy, PartialEq, Eq, Structural)]
pub struct Mirror {
    pub x: bool,
    pub y: bool,
    pub z: bool,
}

/// `b` negated where `on` holds, else `b`.
pub open spec fn flip_if(on: bool, b: u32) -> u32 {
    if on {
        neg_spec(b)
    } else {
        b
    }
}

/// The indices of a face in reverse order.
pub open spec fn reversed(s: Seq<usize>) -> Seq<usize> {
    Seq::new(s.len(), |k: int| s[s.len() - 1 - k])
}

impl Mirror {
    /// How many axes are negated, from 0 to 3.
    pub open spec fn reflection_count_spec(self) -> nat {
        (if self.x { 1nat } else { 0nat }) + (if self.y { 1nat } else { 0nat }) + (if self.z {
            1nat
        } else {
            0nat
        })
    }

    /// The reflection changes handedness.
    pub open spec fn flips_winding(self) -> bool {
        self.reflection_count_spec() % 2 == 1
    }

    /// `v` with the chosen components negated.
    pub open spec fn mirror_vec(self, v: Vec3) -> Vec3 {
        Vec3 { x: flip_if(self.x, v.x), y: flip_if(self.y, v.y), z: flip_if(self.z, v.z) }
    }

    /// `v` after the reflection: position and normal mirrored, texture
    /// coordinates kept.
    pub open spec fn mirror_vertex(self, v: Vertex) -> Vertex {
        Vertex {
            position: self.mirror_vec(v.position),
            normal: self.mirror_vec(v.normal),
            tex_coords: v.tex_coords,
        }
    }

    /// The indices of a face after the reflection.
    pub open spec fn mirror_indices(self, s: Seq<usize>) -> Seq<usize> {
        if self.flips_winding() && s.len() >= 3 {
            reversed(s)
        } else {
            s
        }
    }

    /// A reflection across the chosen planes: `x` negates x, and so on.
    pub fn new(x: bool, y: bool, z: bool) -> (r: Mirror)
        ensures
            r == (Mirror { x, y, z }),
    {
        Mirror { x, y, z }
    }

    /// Reflection across the YZ plane (negates x).
    pub fn x() -> (r: Mirror)
        ensures
            r == (Mirror { x: true, y: false, z: false }),
    {
        Mirror::new(true, false, false)
    }

    /// Reflection across the XZ plane (negates y).
    pub fn y() -> (r: Mirror)
        ensures
            r == (Mirror { x: false, y: true, z: false }),
    {
        Mirror::new(false, true, false)
    }

    /// Reflection across the XY plane (negates z).
    pub fn z() -> (r: Mirror)
        ensures
            r == (Mirror { x: false, y: false, z: true }),
    {
        Mirror::new(false, false, true)
    }

    /// How many axes this reflection negates.
    pub fn reflection_count(&self) -> (r: u8)
        ensures
            r as nat == self.reflection_count_spec(),
            r <= 3,
    {
        let mut n: u8 = 0;
        if self.x {
            n = n + 1;
        }
        if self.y {
            n = n + 1;
        }
        if self.z {
            n = n + 1;
        }
        n
    }

    /// The component bits of `v` with the chosen ones negated.
    fn mirror_vec_exec(&self, v: Vec3) -> (r: Vec3)
        ensures
            r == self.mirror_vec(v),
    {
        Vec3 {
            x: if self.x { neg(v.x) } else { v.x },
            y: if self.y { neg(v.y) } else { v.y },
            z: if self.z { neg(v.z) } else { v.z },
        }
    }
}

/// Mirroring twice across the same planes is the identity: every vertex
/// (position, normal, texture coordinates) and every face's winding is what it
/// was before the first reflection.
pub proof fn lemma_mirror_twice_restores(m: Mirror, v: Vertex, indices: Seq<usize>)
    ensures
        m.mirror_vertex(m.mirror_vertex(v)) == v,
        m.mirror_indices(m.mirror_indices(indices)) == indices,
{
    lemma_mirror_vertex_twice(m, v);
    lemma_mirror_indices_twice(m, indices);
}

proof fn lemma_mirror_vertex_twice(m: Mirror, v: Vertex)
    ensures
        m.mirror_vertex(m.mirror_vertex(v)) == v,
{
    lemma_neg_involutive(v.position.x);
    lemma_neg_involutive(v.position.y);
    lemma_neg_involutive(v.position.z);
    lemma_neg_involutive(v.normal.x);
    lemma_neg_involutive(v.normal.y);
    lemma_neg_involutive(v.normal.z);
}

proof fn lemma_mirror_indices_twice(m: Mirror, indices: Seq<usize>)
    ensures
        m.mirror_indices(m.mirror_indices(indices)) == indices,
{
    if m.flips_winding() && indices.len() >= 3 {
        assert(reversed(reversed(indices)) =~= indices);
    }
}

/// The same over whole meshes: after two applications of one mirror the
/// vertices are those of the start, and so are the indices of every face.
pub proof fn lemma_mirror_twice_restores_mesh(
    m: Mirror,
    start: Seq<Vertex>,
    start_faces: Seq<Seq<usize>>,
    once: Seq<Vertex>,
    once_faces: Seq<Seq<usize>>,
    twice: Seq<Vertex>,
    twice_faces: Seq<Seq<usize>>,
)
    requires
        once.len() == start.len(),
        twice.len() == once.len(),
        once_faces.len() == start_faces.len(),
        twice_faces.len() == once_faces.len(),
        forall|i: int| 0 <= i < start.len() ==> once[i] == m.mirror_vertex(start[i]),
        forall|i: int| 0 <= i < once.len() ==> twice[i] == m.mirror_vertex(once[i]),
        forall|i: int|
            0 <= i < start_faces.len() ==> once_faces[i] == m.mirror_indices(start_faces[i]),
        forall|i: int|
            0 <= i < once_faces.len() ==> twice_faces[i] == m.mirror_indices(once_faces[i]),
    ensures
        twice == start,
        twice_faces == start_faces,
{
    assert forall|i: int| 0 <= i < start.len() implies twice[i] == start[i] by {
        lemma_mirror_vertex_twice(m, start[i]);
    }
    assert forall|i: int| 0 <= i < start_faces.len() implies twice_faces[i] == start_faces[i] by {
        lemma_mirror_indices_twice(m, start_faces[i]);
    }
    assert(twice =~= start);
    assert(twice_faces =~= start_faces);
}

/// A mirror across exactly one plane negates exactly that component of the
/// position (its sign bit flips, its magnitude stays), keeps the other two,
/// and reverses the indices of every face of at least three vertices.
pub proof fn lemma_single_plane_mirror(m: Mirror, v: Vertex, indices: Seq<usize>)
    requires
        m.reflection_count_spec() == 1,
    ensures
        m.x ==> m.mirror_vertex(v).position == (Vec3 {
            x: neg_spec(v.position.x),
            y: v.position.y,
            z: v.position.z,
        }),
        m.y ==> m.mirror_vertex(v).position == (Vec3 {
            x: v.position.x,
            y: neg_spec(v.position.y),
            z: v.position.z,
        }),
        m.z ==> m.mirror_vertex(v).position == (Vec3 {
            x: v.position.x,
            y: v.position.y,
            z: neg_spec(v.position.z),
        }),
        neg_spec(v.position.x) & 0x7fff_ffffu32 == v.position.x & 0x7fff_ffffu32,
        neg_spec(v.position.x) & 0x8000_0000u32 != v.position.x & 0x8000_0000u32,
        neg_spec(v.position.y) & 0x7fff_ffffu32 == v.position.y & 0x7fff_ffffu32,
        neg_spec(v.position.y) & 0x8000_0000u32 != v.position.y & 0x8000_0000u32,
        neg_spec(v.position.z) & 0x7fff_ffffu32 == v.position.z & 0x7fff_ffffu32,
        neg_spec(v.position.z) & 0x8000_0000u32 != v.position.z & 0x8000_0000u32,
        indices.len() >= 3 ==> m.mirror_indices(indices) == reversed(indices),
{
    lemma_neg_flips_sign_only(v.position.x);
    lemma_neg_flips_sign_only(v.position.y);
    lemma_neg_flips_sign_only(v.position.z);
}

/// A new vector with the elements of `s` in reverse order.
fn reverse_indices(s: &Vec<usize>) -> (r: Vec<usize>)
    ensures
        r@ == reversed(s@),
{
    let mut r: Vec<usize> = Vec::new();
    let n = s.len();
    let mut k: usize = 0;
    while k < n
        invariant
            n == s@.len(),
            k <= n,
            r@.len() == k,
            forall|j: int| 0 <= j < k ==> r@[j] == s@[n - 1 - j],
        decreases n - k,
    {
        r.push(s[n - 1 - k]);
        k = k + 1;
    }
    assert(r@ =~= reversed(s@));
    r
}

impl Transform for Mirror {
    /// The call succeeds, every vertex is mirrored, every face gets its
    /// mirrored winding, and nothing else changes.
    open spec fn applied(&self, before: Model, after: Model, r: Result<(), Error>) -> bool {
        &&& r is Ok
        &&& after.name == before.name
        &&& after.mesh.materials == before.mesh.materials
        &&& after.mesh.face_materials == before.mesh.face_materials
        &&& after.mesh.vertices@.len() == before.mesh.vertices@.len()
        &&& after.mesh.faces@.len() == before.mesh.faces@.len()
        &&& forall|i: int|
            0 <= i < before.mesh.vertices@.len() ==> after.mesh.vertices@[i] == self.mirror_vertex(
                before.mesh.vertices@[i],
            )
        &&& forall|i: int|
            0 <= i < before.mesh.faces@.len() ==> after.mesh.faces@[i].indices@
                == self.mirror_indices(before.mesh.faces@[i].indices@)
    }

    fn apply(&self, model: &mut Model) -> (r: Result<(), Error>)
        ensures
            self.applied(*old(model), *final(model), r),
            final(model).mesh.vertices@.len() == old(model).mesh.vertices@.len(),
            final(model).mesh.faces@.len() == old(model).mesh.faces@.len(),
            final(model).mesh.face_materials == old(model).mesh.face_materials,
            final(model).mesh.materials == old(model).mesh.materials,
            final(model).name == old(model).name,
            r is Err ==> r->Err_0 is TransformError,
            r is Ok,
            forall|i: int|
                0 <= i < old(model).mesh.vertices@.len() ==> final(model).mesh.vertices@[i]
                    == self.mirror_vertex(old(model).mesh.vertices@[i]),
            forall|i: int|
                0 <= i < old(model).mesh.faces@.len() ==> final(model).mesh.faces@[i].indices@
                    == self.mirror_indices(old(model).mesh.faces@[i].indices@),
    {
        let flip_winding = self.reflection_count() % 2 == 1;
        let nv = model.mesh.vertices.len();
        let mut i: usize = 0;
        while i < nv
            invariant
                nv == old(model).mesh.vertices@.len(),
                i <= nv,
                model.mesh.vertices@.len() == nv,
                model.mesh.faces == old(model).mesh.faces,
                model.mesh.face_materials == old(model).mesh.face_materials,
                model.mesh.materials == old(model).mesh.materials,
                model.name == old(model).name,
                forall|j: int|
                    0 <= j < i ==> model.mesh.vertices@[j] == self.mirror_vertex(
                        old(model).mesh.vertices@[j],
                    ),
                forall|j: int|
                    i <= j < nv ==> model.mesh.vertices@[j] == old(model).mesh.vertices@[j],
            decreases nv - i,
        {
            let v = model.mesh.vertices[i];
            let mirrored = Vertex {
                position: self.mirror_vec_exec(v.position),
                normal: self.mirror_vec_exec(v.normal),
                tex_coords: v.tex_coords,
            };
            model.mesh.vertices.set(i, mirrored);
            i = i + 1;
        }
        if flip_winding {
            let nf = model.mesh.faces.len();
            let mut i: usize = 0;
            while i < nf
                invariant
                    nf == old(model).mesh.faces@.len(),
                    i <= nf,
                    self.flips_winding(),
                    model.mesh.faces@.len() == nf,
                    model.mesh.vertices@.len() == nv,
                    model.mesh.face_materials == old(model).mesh.face_materials,
                    model.mesh.materials == old(model).mesh.materials,
                    model.name == old(model).name,
                    forall|j: int|
                        0 <= j < nv ==> model.mesh.vertices@[j] == self.mirror_vertex(
                            old(model).mesh.vertices@[j],
                        ),
                    forall|j: int|
                        0 <= j < i ==> model.mesh.faces@[j].indices@ == self.mirror_indices(
                            old(model).mesh.faces@[j].indices@,
                        ),
                    forall|j: int|
                        i <= j < nf ==> model.mesh.faces@[j] == old(model).mesh.faces@[j],
                decreases nf - i,
            {
                if model.mesh.faces[i].indices.len() >= 3 {
                    let rev = reverse_indices(&model.mesh.faces[i].indices);
                    model.mesh.faces.set(i, Face { indices: rev });
                }
                i = i + 1;
            }
        }
        Ok(())
    }
}

} // verus!
