//! The binary buffer of a glTF export: vertex positions, vertex normals,
//! triangle indices and, when any vertex has them, texture coordinates, each
//! block little-endian and packed one after the other.
use vstd::prelude::*;
use crate::types::{Face, Mesh, Vec3, Vertex};

verus! {

/// The four little-endian bytes of `b`.
pub open spec fn le_bytes32(b: u32) -> Seq<u8> {
    seq![b as u8, (b >> 8) as u8, (b >> 16) as u8, (b >> 24) as u8]
}

/// The two little-endian bytes of `b`.
pub open spec fn le_bytes16(b: u16) -> Seq<u8> {
    seq![b as u8, (b >> 8) as u8]
}

/// The twelve bytes of a vector: x, y, then z.
pub open spec fn vec3_bytes(v: Vec3) -> Seq<u8> {
    le_bytes32(v.x) + le_bytes32(v.y) + le_bytes32(v.z)
}

/// The texture coordinates of `v`, `(0.0, 0.0)` where it has none.
pub open spec fn uv_or_zero(v: Vertex) -> (u32, u32) {
    match v.tex_coords {
        Some(uv) => uv,
        None => (0u32, 0u32),
    }
}

/// The position bytes of each vertex, in order.
pub open spec fn position_bytes(vs: Seq<Vertex>) -> Seq<u8>
    decreases vs.len(),
{
    if vs.len() == 0 {
        Seq::empty()
    } else {
        position_bytes(vs.drop_last()) + vec3_bytes(vs.last().position)
    }
}

/// The normal bytes of each vertex, in order.
pub open spec fn normal_bytes(vs: Seq<Vertex>) -> Seq<u8>
    decreases vs.len(),
{
    if vs.len() == 0 {
        Seq::empty()
    } else {
        normal_bytes(vs.drop_last()) + vec3_bytes(vs.last().normal)
    }
}

/// The texture coordinate bytes of each vertex (u, then v), in order.
pub open spec fn uv_bytes(vs: Seq<Vertex>) -> Seq<u8>
    decreases vs.len(),
{
    if vs.len() == 0 {
        Seq::empty()
    } else {
        uv_bytes(vs.drop_last()) + le_bytes32(uv_or_zero(vs.last()).0) + le_bytes32(
            uv_or_zero(vs.last()).1,
        )
    }
}

/// The indices of the triangles of a face split as a fan from its first
/// vertex: `f[0], f[i], f[i + 1]` for each `i` from 1 to `len - 2`. A face of
/// fewer than three indices has no triangles.
pub open spec fn fan_indices(f: Seq<usize>) -> Seq<usize> {
    if f.len() < 3 {
        Seq::empty()
    } else {
        Seq::new(
            ((f.len() - 2) * 3) as nat,
            |k: int|
                if k % 3 == 0 {
                    f[0]
                } else if k % 3 == 1 {
                    f[k / 3 + 1]
                } else {
                    f[k / 3 + 2]
                },
        )
    }
}

/// The triangle indices of every face, in face order.
pub open spec fn triangle_indices(faces: Seq<Face>) -> Seq<usize>
    decreases faces.len(),
{
    if faces.len() == 0 {
        Seq::empty()
    } else {
        triangle_indices(faces.drop_last()) + fan_indices(faces.last().indices@)
    }
}

/// Each index as two little-endian bytes of an unsigned short (a buffer is
/// only made where every index fits, see `indices_fit`).
pub open spec fn index_bytes(ix: Seq<usize>) -> Seq<u8>
    decreases ix.len(),
{
    if ix.len() == 0 {
        Seq::empty()
    } else {
        index_bytes(ix.drop_last()) + le_bytes16(ix.last() as u16)
    }
}

/// Every triangle index of `m` fits in an unsigned short.
pub open spec fn indices_fit(m: Mesh) -> bool {
    forall|k: int|
        0 <= k < triangle_indices(m.faces@).len() ==> #[trigger] triangle_indices(m.faces@)[k]
            <= 0xffff
}

/// Some vertex has texture coordinates.
pub open spec fn has_tex_coords_spec(vs: Seq<Vertex>) -> bool {
    exists|i: int| 0 <= i < vs.len() && (#[trigger] vs[i]).tex_coords is Some
}

/// The whole buffer of `m`.
pub open spec fn buffer_spec(m: Mesh) -> Seq<u8> {
    position_bytes(m.vertices@) + normal_bytes(m.vertices@) + index_bytes(
        triangle_indices(m.faces@),
    ) + if has_tex_coords_spec(m.vertices@) {
        uv_bytes(m.vertices@)
    } else {
        Seq::empty()
    }
}

/// The length of the buffer of `m`: 12 bytes of position and 12 of normal
/// per vertex, 2 per triangle index, and 8 of texture coordinates per vertex
/// when any vertex has them.
pub open spec fn buffer_size_spec(m: Mesh) -> int {
    let uv_size: int = if has_tex_coords_spec(m.vertices@) {
        8 * m.vertices@.len() as int
    } else {
        0
    };
    24 * m.vertices@.len() as int + 2 * triangle_indices(m.faces@).len() as int + uv_size
}

/// Appends the little-endian bytes of `b`.
fn push_le32(out: &mut Vec<u8>, b: u32)
    ensures
        final(out)@ == old(out)@ + le_bytes32(b),
{
    out.push(b as u8);
    out.push((b >> 8) as u8);
    out.push((b >> 16) as u8);
    out.push((b >> 24) as u8);
    assert(out@ =~= old(out)@ + le_bytes32(b));
}

/// Appends the little-endian bytes of `b`.
fn push_le16(out: &mut Vec<u8>, b: u16)
    ensures
        final(out)@ == old(out)@ + le_bytes16(b),
{
    out.push(b as u8);
    out.push((b >> 8) as u8);
    assert(out@ =~= old(out)@ + le_bytes16(b));
}

/// Appends the twelve bytes of `v`.
fn push_vec3(out: &mut Vec<u8>, v: Vec3)
    ensures
        final(out)@ == old(out)@ + vec3_bytes(v),
{
    push_le32(out, v.x);
    push_le32(out, v.y);
    push_le32(out, v.z);
    assert(out@ =~= old(out)@ + vec3_bytes(v));
}

/// Whether any vertex has texture coordinates.
pub fn has_tex_coords(vertices: &Vec<Vertex>) -> (r: bool)
    ensures
        r == has_tex_coords_spec(vertices@),
{
    let mut i: usize = 0;
    while i < vertices.len()
        invariant
            i <= vertices@.len(),
            forall|j: int| 0 <= j < i ==> (#[trigger] vertices@[j]).tex_coords is None,
        decreases vertices@.len() - i,
    {
        if vertices[i].tex_coords.is_some() {
            return true;
        }
        i = i + 1;
    }
    false
}

/// The triangle indices of every face, each face split as a fan from its
/// first vertex, faces of fewer than three indices skipped.
pub fn triangulate(faces: &Vec<Face>) -> (r: Vec<usize>)
    ensures
        r@ == triangle_indices(faces@),
{
    let mut r: Vec<usize> = Vec::new();
    let mut fi: usize = 0;
    while fi < faces.len()
        invariant
            fi <= faces@.len(),
            r@ == triangle_indices(faces@.take(fi as int)),
        decreases faces@.len() - fi,
    {
        let f = &faces[fi].indices;
        let ghost start = r@;
        let ghost fan = fan_indices(f@);
        if f.len() >= 3 {
            let mut i: usize = 1;
            while i < f.len() - 1
                invariant
                    1 <= i <= f@.len() - 1,
                    f@.len() >= 3,
                    fan == fan_indices(f@),
                    r@ == start + fan.take(3 * (i - 1)),
                decreases f@.len() - i,
            {
                let ghost before = r@;
                r.push(f[0]);
                r.push(f[i]);
                r.push(f[i + 1]);
                proof {
                    let k = 3 * (i - 1);
                    assert(k / 3 + 1 == i && k % 3 == 0);
                    assert((k + 1) / 3 + 1 == i && (k + 1) % 3 == 1);
                    assert((k + 2) / 3 + 2 == i + 1 && (k + 2) % 3 == 2);
                    assert(fan.take(3 * i) =~= fan.take(k) + seq![f@[0], f@[i as int], f@[i + 1]]);
                    assert(r@ =~= start + fan.take(3 * i));
                }
                i = i + 1;
            }
            assert(fan.take(3 * (i - 1)) =~= fan);
        } else {
            assert(fan =~= Seq::<usize>::empty());
            assert(r@ =~= start + fan);
        }
        assert(faces@.take(fi + 1).drop_last() =~= faces@.take(fi as int));
        fi = fi + 1;
    }
    assert(faces@.take(faces@.len() as int) =~= faces@);
    r
}

/// Whether every index fits in an unsigned short.
fn all_fit_u16(ix: &Vec<usize>) -> (r: bool)
    ensures
        r == forall|k: int| 0 <= k < ix@.len() ==> #[trigger] ix@[k] <= 0xffff,
{
    let mut k: usize = 0;
    while k < ix.len()
        invariant
            k <= ix@.len(),
            forall|j: int| 0 <= j < k ==> #[trigger] ix@[j] <= 0xffff,
        decreases ix@.len() - k,
    {
        if ix[k] > 0xffff {
            return false;
        }
        k = k + 1;
    }
    true
}

/// The number of triangle indices the mesh exports.
pub fn count_indices(mesh: &Mesh) -> (r: usize)
    ensures
        r == triangle_indices(mesh.faces@).len(),
{
    triangulate(&mesh.faces).len()
}

/// The binary buffer of a glTF export of `mesh`, as `buffer_spec` lays it
/// out, or `None` where some triangle index does not fit in the unsigned
/// short the format stores it as.
pub fn gltf_buffer(mesh: &Mesh) -> (r: Option<Vec<u8>>)
    ensures
        r is Some <==> indices_fit(*mesh),
        r is Some ==> r->Some_0@ == buffer_spec(*mesh),
{
    let indices = triangulate(&mesh.faces);
    if !all_fit_u16(&indices) {
        return None;
    }
    let vs = &mesh.vertices;
    let n = vs.len();
    let mut out: Vec<u8> = Vec::new();
    let mut i: usize = 0;
    while i < n
        invariant
            n == vs@.len(),
            i <= n,
            out@ == position_bytes(vs@.take(i as int)),
        decreases n - i,
    {
        push_vec3(&mut out, vs[i].position);
        assert(vs@.take(i + 1).drop_last() =~= vs@.take(i as int));
        i = i + 1;
    }
    assert(vs@.take(n as int) =~= vs@);
    let ghost positions = out@;
    let mut i: usize = 0;
    while i < n
        invariant
            n == vs@.len(),
            i <= n,
            out@ == positions + normal_bytes(vs@.take(i as int)),
        decreases n - i,
    {
        push_vec3(&mut out, vs[i].normal);
        assert(vs@.take(i + 1).drop_last() =~= vs@.take(i as int));
        assert(out@ =~= positions + normal_bytes(vs@.take(i + 1)));
        i = i + 1;
    }
    let ghost before_indices = out@;
    let mut k: usize = 0;
    while k < indices.len()
        invariant
            k <= indices@.len(),
            out@ == before_indices + index_bytes(indices@.take(k as int)),
        decreases indices@.len() - k,
    {
        push_le16(&mut out, indices[k] as u16);
        assert(indices@.take(k + 1).drop_last() =~= indices@.take(k as int));
        assert(out@ =~= before_indices + index_bytes(indices@.take(k + 1)));
        k = k + 1;
    }
    assert(indices@.take(indices@.len() as int) =~= indices@);
    if has_tex_coords(vs) {
        let ghost before_uvs = out@;
        let mut i: usize = 0;
        while i < n
            invariant
                n == vs@.len(),
                i <= n,
                out@ == before_uvs + uv_bytes(vs@.take(i as int)),
            decreases n - i,
        {
            let (u, v) = match vs[i].tex_coords {
                Some(uv) => uv,
                None => (0u32, 0u32),
            };
            push_le32(&mut out, u);
            push_le32(&mut out, v);
            assert(vs@.take(i + 1).drop_last() =~= vs@.take(i as int));
            assert(out@ =~= before_uvs + uv_bytes(vs@.take(i + 1)));
            i = i + 1;
        }
        assert(out@ =~= buffer_spec(*mesh));
    } else {
        assert(out@ =~= buffer_spec(*mesh));
    }
    Some(out)
}

/// The position and normal blocks hold twelve bytes per vertex.
pub proof fn lemma_vertex_blocks_len(vs: Seq<Vertex>)
    ensures
        position_bytes(vs).len() == 12 * vs.len(),
        normal_bytes(vs).len() == 12 * vs.len(),
        uv_bytes(vs).len() == 8 * vs.len(),
    decreases vs.len(),
{
    if vs.len() > 0 {
        lemma_vertex_blocks_len(vs.drop_last());
    }
}

/// The index block holds two bytes per index.
pub proof fn lemma_index_bytes_len(ix: Seq<usize>)
    ensures
        index_bytes(ix).len() == 2 * ix.len(),
    decreases ix.len(),
{
    if ix.len() > 0 {
        lemma_index_bytes_len(ix.drop_last());
    }
}

/// The buffer is as long as `buffer_size_spec` says.
pub proof fn lemma_buffer_len(m: Mesh)
    ensures
        buffer_spec(m).len() == buffer_size_spec(m),
{
    lemma_vertex_blocks_len(m.vertices@);
    lemma_index_bytes_len(triangle_indices(m.faces@));
}

/// The byte length of the glTF buffer of `mesh`, or `None` where there is no
/// buffer (an index does not fit in 16 bits) or its length does not fit in a
/// `usize`.
pub fn buffer_size(mesh: &Mesh) -> (r: Option<usize>)
    ensures
        r == (if indices_fit(*mesh) && buffer_size_spec(*mesh) <= usize::MAX {
            Some(buffer_size_spec(*mesh) as usize)
        } else {
            None::<usize>
        }),
        r is Some ==> r->Some_0 == buffer_spec(*mesh).len(),
{
    proof {
        lemma_buffer_len(*mesh);
    }
    let n = mesh.vertices.len();
    let triangles = triangulate(&mesh.faces);
    if !all_fit_u16(&triangles) {
        return None;
    }
    let indices = triangles.len();
    let uv_size: usize = if has_tex_coords(&mesh.vertices) {
        if n > usize::MAX / 8 {
            return None;
        }
        8 * n
    } else {
        0
    };
    if n > usize::MAX / 24 || indices > usize::MAX / 2 {
        return None;
    }
    let vertex_size = 24 * n;
    let index_size = 2 * indices;
    match vertex_size.checked_add(index_size) {
        None => None,
        Some(s) => s.checked_add(uv_size),
    }
}

} // verus!
