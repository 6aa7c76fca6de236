//! Face generation for the primitive shapes: triangle fans, bands between two
//! rings of vertices, and quads split in two. Each function appends faces to a
//! mesh and says exactly which.
use vstd::prelude::*;
use crate::error::Error;
use crate::types::{Face, Mesh};

verus! {

/// `after` is `before` with faces whose indices are `tris`, in that order and
/// with no material, appended; nothing else changed.
pub open spec fn appends_faces(before: Mesh, after: Mesh, tris: Seq<Seq<usize>>) -> bool {
    &&& after.vertices == before.vertices
    &&& after.materials == before.materials
    &&& after.faces@.len() == before.faces@.len() + tris.len()
    &&& after.face_materials@ == before.face_materials@ + no_materials(tris.len())
    &&& forall|i: int| 0 <= i < before.faces@.len() ==> after.faces@[i] == before.faces@[i]
    &&& forall|k: int|
        0 <= k < tris.len() ==> after.faces@[before.faces@.len() + k].indices@ == tris[k]
}

/// `n` faces without a material.
pub open spec fn no_materials(n: nat) -> Seq<Option<String>> {
    Seq::new(n, |k: int| None)
}

/// Every index of every face is the index of a vertex of the mesh.
pub open spec fn indices_in_bounds(m: Mesh) -> bool {
    forall|f: int, k: int|
        0 <= f < m.faces@.len() && 0 <= k < m.faces@[f].indices@.len() ==> #[trigger] m.faces@[f].indices@[k]
            < m.vertices@.len()
}

/// Every index of every triangle in `tris` is below `n`.
pub open spec fn all_below(tris: Seq<Seq<usize>>, n: nat) -> bool {
    forall|k: int, j: int| 0 <= k < tris.len() && 0 <= j < tris[k].len() ==> #[trigger] tris[k][j] < n
}

/// Every element of `ring` is below `n`.
pub open spec fn ring_below(ring: Seq<usize>, n: nat) -> bool {
    forall|i: int| 0 <= i < ring.len() ==> #[trigger] ring[i] < n
}

/// The position after `i` on a ring of `n` positions.
pub open spec fn next_on_ring(i: int, n: int) -> int {
    (i + 1) % n
}

/// The triangles of a fan from `center` to each edge of `ring`: triangle `i`
/// is `center, ring[i], ring[i + 1]`, the ring closing on itself; with
/// `reverse` the two ring vertices swap places (the fan faces the other way).
pub open spec fn fan_triangles(center: usize, ring: Seq<usize>, reverse: bool) -> Seq<Seq<usize>> {
    Seq::new(
        ring.len(),
        |i: int|
            if reverse {
                seq![center, ring[next_on_ring(i, ring.len() as int)], ring[i]]
            } else {
                seq![center, ring[i], ring[next_on_ring(i, ring.len() as int)]]
            },
    )
}

/// The triangles of a band between `upper` and `lower`, two rings of equal
/// length: for each position `j`, with `nj` the next, the quad
/// `upper[j], lower[j], lower[nj], upper[nj]` is split along
/// `lower[j]`–`upper[nj]` into triangles `2j` and `2j + 1`.
pub open spec fn band_triangles(upper: Seq<usize>, lower: Seq<usize>) -> Seq<Seq<usize>> {
    Seq::new(
        2 * upper.len(),
        |k: int|
            {
                let j = k / 2;
                let nj = next_on_ring(j, upper.len() as int);
                if k % 2 == 0 {
                    seq![upper[j], lower[j], upper[nj]]
                } else {
                    seq![upper[nj], lower[j], lower[nj]]
                }
            },
    )
}

/// The triangles of the side of a prism between `bottom` and `top`, two rings
/// of equal length: for each position `i`, with `ni` the next, the quad is
/// split along `bottom[i]`–`top[ni]` into `bottom[i], top[i], top[ni]` and
/// `bottom[i], top[ni], bottom[ni]`.
pub open spec fn side_triangles(bottom: Seq<usize>, top: Seq<usize>) -> Seq<Seq<usize>> {
    Seq::new(
        2 * bottom.len(),
        |k: int|
            {
                let i = k / 2;
                let ni = next_on_ring(i, bottom.len() as int);
                if k % 2 == 0 {
                    seq![bottom[i], top[i], top[ni]]
                } else {
                    seq![bottom[i], top[ni], bottom[ni]]
                }
            },
    )
}

/// The two triangles of the quad `a, b, c, d`: `a, b, c` and `a, c, d`.
pub open spec fn quad_triangles(a: usize, b: usize, c: usize, d: usize) -> Seq<Seq<usize>> {
    seq![seq![a, b, c], seq![a, c, d]]
}

/// The bands between each pair of neighbouring rings among the first `n`
/// rings, from the first pair on.
pub open spec fn ring_bands(rings: Seq<Seq<usize>>, n: nat) -> Seq<Seq<usize>>
    decreases n,
{
    if n <= 1 {
        Seq::empty()
    } else {
        ring_bands(rings, (n - 1) as nat) + band_triangles(rings[n - 2], rings[n - 1])
    }
}

/// The triangles of a UV sphere whose rings, from top to bottom, are `rings`:
/// a fan from the `top` pole to the first ring, the bands between neighbouring
/// rings, and a fan from the `bottom` pole to the last ring, facing down.
pub open spec fn sphere_triangles(top: usize, bottom: usize, rings: Seq<Seq<usize>>) -> Seq<
    Seq<usize>,
> {
    fan_triangles(top, rings[0], false) + ring_bands(rings, rings.len()) + fan_triangles(
        bottom,
        rings.last(),
        true,
    )
}

/// A sphere of `n` rings of `s` vertices each has `2s` triangles in its two
/// pole fans and `2s` in each of the `n - 1` bands between rings.
pub proof fn lemma_sphere_triangle_count(top: usize, bottom: usize, rings: Seq<Seq<usize>>, s: nat)
    requires
        rings.len() >= 1,
        forall|i: int| 0 <= i < rings.len() ==> #[trigger] rings[i].len() == s,
    ensures
        sphere_triangles(top, bottom, rings).len() == 2 * s + 2 * s * (rings.len() - 1),
{
    lemma_ring_bands_count(rings, rings.len(), s);
    assert(rings.last() == rings[rings.len() - 1]);
}

/// The bands among the first `n` rings number `2s` triangles per pair.
proof fn lemma_ring_bands_count(rings: Seq<Seq<usize>>, n: nat, s: nat)
    requires
        1 <= n <= rings.len(),
        forall|i: int| 0 <= i < rings.len() ==> #[trigger] rings[i].len() == s,
    ensures
        ring_bands(rings, n).len() == 2 * s * (n - 1),
    decreases n,
{
    if n > 1 {
        lemma_ring_bands_count(rings, (n - 1) as nat, s);
        assert(rings[n - 2].len() == s);
        let b = band_triangles(rings[n - 2], rings[n - 1]);
        assert(b.len() == 2 * s);
        assert(ring_bands(rings, n) == ring_bands(rings, (n - 1) as nat) + b);
        assert(2 * s * (n - 1) == 2 * s * (n - 2) + 2 * s) by (nonlinear_arith)
            requires
                n >= 2,
        ;
    } else {
        assert(2 * s * (n - 1) == 0) by (nonlinear_arith)
            requires
                n == 1,
        ;
    }
}

/// Appending `t1` and then `t2` appends `t1 + t2`.
pub proof fn lemma_appends_compose(
    a: Mesh,
    b: Mesh,
    c: Mesh,
    t1: Seq<Seq<usize>>,
    t2: Seq<Seq<usize>>,
)
    requires
        appends_faces(a, b, t1),
        appends_faces(b, c, t2),
    ensures
        appends_faces(a, c, t1 + t2),
{
    assert(no_materials(t1.len()) + no_materials(t2.len()) =~= no_materials((t1 + t2).len()));
    assert(a.face_materials@ + no_materials(t1.len()) + no_materials(t2.len())
        =~= a.face_materials@ + no_materials((t1 + t2).len()));
    let t = t1 + t2;
    assert forall|k: int| 0 <= k < t.len() implies c.faces@[a.faces@.len() + k].indices@
        == t[k] by {
        if k < t1.len() {
            assert(c.faces@[a.faces@.len() + k] == b.faces@[a.faces@.len() + k]);
        } else {
            assert(c.faces@[b.faces@.len() + (k - t1.len())].indices@ == t2[k - t1.len()]);
        }
    }
}

/// Faces appended to a mesh whose faces all index its vertices keep it so,
/// when every appended index is the index of a vertex.
pub proof fn lemma_appends_keep_bounds(before: Mesh, after: Mesh, tris: Seq<Seq<usize>>)
    requires
        appends_faces(before, after, tris),
        indices_in_bounds(before),
        all_below(tris, before.vertices@.len()),
    ensures
        indices_in_bounds(after),
{
    assert forall|f: int, k: int|
        0 <= f < after.faces@.len() && 0 <= k < after.faces@[f].indices@.len() implies #[trigger] after.faces@[f].indices@[k]
            < after.vertices@.len() by {
        if f < before.faces@.len() {
            assert(after.faces@[f] == before.faces@[f]);
            assert(before.faces@[f].indices@[k] < before.vertices@.len());
        } else {
            let t = f - before.faces@.len();
            assert(after.faces@[before.faces@.len() + t].indices@ == tris[t]);
            assert(tris[t][k] < before.vertices@.len());
        }
    }
}

/// A fan over a ring whose vertices, and centre, are below `n` uses only
/// indices below `n`.
pub proof fn lemma_fan_below(center: usize, ring: Seq<usize>, reverse: bool, n: nat)
    requires
        center < n,
        ring_below(ring, n),
    ensures
        all_below(fan_triangles(center, ring, reverse), n),
{
    let tris = fan_triangles(center, ring, reverse);
    assert forall|k: int, j: int| 0 <= k < tris.len() && 0 <= j < tris[k].len() implies #[trigger] tris[k][j] < n by {
        let next = next_on_ring(k, ring.len() as int);
        assert(0 <= next < ring.len()) by (nonlinear_arith)
            requires
                next == (k + 1) % (ring.len() as int),
                0 <= k < ring.len(),
        ;
        assert(ring[k] < n && ring[next] < n);
    }
}

/// A band, or a prism side, between two rings of equal length whose
/// vertices are below `n` uses only indices below `n`.
pub proof fn lemma_band_below(upper: Seq<usize>, lower: Seq<usize>, n: nat)
    requires
        upper.len() == lower.len(),
        ring_below(upper, n),
        ring_below(lower, n),
    ensures
        all_below(band_triangles(upper, lower), n),
        all_below(side_triangles(upper, lower), n),
{
    let b = band_triangles(upper, lower);
    let t = side_triangles(upper, lower);
    assert forall|k: int, j: int| 0 <= k < b.len() && 0 <= j < b[k].len() implies #[trigger] b[k][j] < n by {
        let i = k / 2;
        let ni = next_on_ring(i, upper.len() as int);
        assert(0 <= i < upper.len() && 0 <= ni < upper.len()) by (nonlinear_arith)
            requires
                i == k / 2,
                ni == (i + 1) % (upper.len() as int),
                0 <= k < 2 * upper.len(),
        ;
        assert(upper[i] < n && upper[ni] < n && lower[i] < n && lower[ni] < n);
    }
    assert forall|k: int, j: int| 0 <= k < t.len() && 0 <= j < t[k].len() implies #[trigger] t[k][j] < n by {
        let i = k / 2;
        let ni = next_on_ring(i, upper.len() as int);
        assert(0 <= i < upper.len() && 0 <= ni < upper.len()) by (nonlinear_arith)
            requires
                i == k / 2,
                ni == (i + 1) % (upper.len() as int),
                0 <= k < 2 * upper.len(),
        ;
        assert(upper[i] < n && upper[ni] < n && lower[i] < n && lower[ni] < n);
    }
}

/// Two lists of triangles below `n` make a list below `n`.
pub proof fn lemma_concat_below(t1: Seq<Seq<usize>>, t2: Seq<Seq<usize>>, n: nat)
    requires
        all_below(t1, n),
        all_below(t2, n),
    ensures
        all_below(t1 + t2, n),
{
    let t = t1 + t2;
    assert forall|k: int, j: int| 0 <= k < t.len() && 0 <= j < t[k].len() implies #[trigger] t[k][j] < n by {
        if k < t1.len() {
            assert(t[k] == t1[k]);
            assert(t1[k][j] < n);
        } else {
            assert(t[k] == t2[k - t1.len()]);
            assert(t2[k - t1.len()][j] < n);
        }
    }
}

/// The bands among rings whose vertices are below `n` use only indices
/// below `n`.
proof fn lemma_ring_bands_below(rings: Seq<Seq<usize>>, m: nat, n: nat)
    requires
        m <= rings.len(),
        forall|i: int| 0 <= i < rings.len() ==> #[trigger] rings[i].len() == rings[0].len(),
        forall|i: int| 0 <= i < rings.len() ==> ring_below(#[trigger] rings[i], n),
    ensures
        all_below(ring_bands(rings, m), n),
    decreases m,
{
    if m > 1 {
        lemma_ring_bands_below(rings, (m - 1) as nat, n);
        assert(rings[m - 2].len() == rings[m - 1].len());
        assert(ring_below(rings[m - 2], n));
        assert(ring_below(rings[m - 1], n));
        lemma_band_below(rings[m - 2], rings[m - 1], n);
        lemma_concat_below(ring_bands(rings, (m - 1) as nat), band_triangles(rings[m - 2], rings[m - 1]), n);
    }
}

/// A sphere whose poles and ring vertices are below `n` uses only indices
/// below `n`.
pub proof fn lemma_sphere_below(top: usize, bottom: usize, rings: Seq<Seq<usize>>, n: nat)
    requires
        rings.len() >= 1,
        top < n,
        bottom < n,
        forall|i: int| 0 <= i < rings.len() ==> #[trigger] rings[i].len() == rings[0].len(),
        forall|i: int| 0 <= i < rings.len() ==> ring_below(#[trigger] rings[i], n),
    ensures
        all_below(sphere_triangles(top, bottom, rings), n),
{
    assert(ring_below(rings[0], n));
    assert(ring_below(rings[rings.len() - 1], n));
    lemma_fan_below(top, rings[0], false, n);
    lemma_ring_bands_below(rings, rings.len(), n);
    lemma_fan_below(bottom, rings.last(), true, n);
    lemma_concat_below(fan_triangles(top, rings[0], false), ring_bands(rings, rings.len()), n);
    lemma_concat_below(
        fan_triangles(top, rings[0], false) + ring_bands(rings, rings.len()),
        fan_triangles(bottom, rings.last(), true),
        n,
    );
}

/// Appends the triangle `a, b, c` with no material.
fn push_triangle(mesh: &mut Mesh, a: usize, b: usize, c: usize)
    ensures
        final(mesh).vertices == old(mesh).vertices,
        final(mesh).materials == old(mesh).materials,
        final(mesh).faces@.len() == old(mesh).faces@.len() + 1,
        final(mesh).face_materials@ == old(mesh).face_materials@.push(None),
        final(mesh).faces@.drop_last() == old(mesh).faces@,
        final(mesh).faces@.last().indices@ == seq![a, b, c],
{
    mesh.add_face(Face::triangle(a, b, c), None);
    assert(mesh.faces@.drop_last() =~= old(mesh).faces@);
}

/// Appends the two triangles of the quad `a, b, c, d`.
pub fn add_quad(mesh: &mut Mesh, a: usize, b: usize, c: usize, d: usize)
    ensures
        appends_faces(*old(mesh), *final(mesh), quad_triangles(a, b, c, d)),
        indices_in_bounds(*old(mesh)) && a < old(mesh).vertices@.len() && b < old(
            mesh,
        ).vertices@.len() && c < old(mesh).vertices@.len() && d < old(mesh).vertices@.len()
            ==> indices_in_bounds(*final(mesh)),
{
    push_triangle(mesh, a, b, c);
    push_triangle(mesh, a, c, d);
    let ghost tris = quad_triangles(a, b, c, d);
    assert(mesh.face_materials@ =~= old(mesh).face_materials@ + no_materials(2));
    assert(tris[0] == seq![a, b, c]);
    assert(tris[1] == seq![a, c, d]);
    assert forall|i: int| 0 <= i < old(mesh).faces@.len() implies mesh.faces@[i] == old(
        mesh,
    ).faces@[i] by {
        assert(mesh.faces@.drop_last().drop_last()[i] == mesh.faces@[i]);
    }
    proof {
        let nv = old(mesh).vertices@.len();
        if indices_in_bounds(*old(mesh)) && a < nv && b < nv && c < nv && d < nv {
            assert(all_below(tris, nv));
            lemma_appends_keep_bounds(*old(mesh), *mesh, tris);
        }
    }
}

/// Appends the fan of triangles from `center` to the edges of `ring`.
pub fn add_fan(mesh: &mut Mesh, center: usize, ring: &Vec<usize>, reverse: bool)
    ensures
        appends_faces(*old(mesh), *final(mesh), fan_triangles(center, ring@, reverse)),
        indices_in_bounds(*old(mesh)) && center < old(mesh).vertices@.len() && ring_below(
            ring@,
            old(mesh).vertices@.len(),
        ) ==> indices_in_bounds(*final(mesh)),
{
    let n = ring.len();
    let ghost tris = fan_triangles(center, ring@, reverse);
    let ghost f0 = old(mesh).faces@.len();
    let mut i: usize = 0;
    while i < n
        invariant
            n == ring@.len(),
            i <= n,
            tris == fan_triangles(center, ring@, reverse),
            f0 == old(mesh).faces@.len(),
            appends_faces(*old(mesh), *mesh, tris.take(i as int)),
        decreases n - i,
    {
        let next = (i + 1) % n;
        let ghost before = *mesh;
        if reverse {
            push_triangle(mesh, center, ring[next], ring[i]);
        } else {
            push_triangle(mesh, center, ring[i], ring[next]);
        }
        proof {
            assert forall|k: int| 0 <= k < f0 + i implies mesh.faces@[k] == before.faces@[k] by {
                assert(mesh.faces@.drop_last()[k] == mesh.faces@[k]);
            }
            assert(tris.take(i + 1)[i as int] == tris[i as int]);
            assert(mesh.face_materials@ =~= old(mesh).face_materials@ + no_materials(
                (i + 1) as nat,
            ));
        }
        i = i + 1;
    }
    assert(tris.take(n as int) =~= tris);
    proof {
        let nv = old(mesh).vertices@.len();
        if indices_in_bounds(*old(mesh)) && center < nv && ring_below(ring@, nv) {
            lemma_fan_below(center, ring@, reverse, nv);
            lemma_appends_keep_bounds(*old(mesh), *mesh, tris);
        }
    }
}

/// Appends the band of triangles between two rings of equal length, as
/// `band_triangles` lays it out.
pub fn add_band(mesh: &mut Mesh, upper: &Vec<usize>, lower: &Vec<usize>)
    requires
        upper@.len() == lower@.len(),
    ensures
        appends_faces(*old(mesh), *final(mesh), band_triangles(upper@, lower@)),
        indices_in_bounds(*old(mesh)) && ring_below(upper@, old(mesh).vertices@.len())
            && ring_below(lower@, old(mesh).vertices@.len()) ==> indices_in_bounds(*final(mesh)),
{
    let n = upper.len();
    let ghost tris = band_triangles(upper@, lower@);
    let ghost f0 = old(mesh).faces@.len();
    let mut j: usize = 0;
    while j < n
        invariant
            n == upper@.len(),
            n == lower@.len(),
            j <= n,
            tris == band_triangles(upper@, lower@),
            f0 == old(mesh).faces@.len(),
            appends_faces(*old(mesh), *mesh, tris.take(2 * j)),
        decreases n - j,
    {
        let nj = (j + 1) % n;
        let ghost before = *mesh;
        push_triangle(mesh, upper[j], lower[j], upper[nj]);
        let ghost middle = *mesh;
        push_triangle(mesh, upper[nj], lower[j], lower[nj]);
        proof {
            assert forall|k: int| 0 <= k < f0 + 2 * j implies mesh.faces@[k] == before.faces@[k] by {
                assert(mesh.faces@.drop_last()[k] == middle.faces@[k]);
                assert(middle.faces@.drop_last()[k] == before.faces@[k]);
            }
            assert(mesh.faces@.drop_last()[f0 + 2 * j] == middle.faces@[f0 + 2 * j]);
            let k0 = 2 * j as int;
            assert(k0 / 2 == j as int && k0 % 2 == 0);
            assert((k0 + 1) / 2 == j as int && (k0 + 1) % 2 == 1);
            assert(tris.take(2 * j + 2)[k0] == tris[k0]);
            assert(tris.take(2 * j + 2)[k0 + 1] == tris[k0 + 1]);
            assert(mesh.face_materials@ =~= old(mesh).face_materials@ + no_materials(
                (2 * j + 2) as nat,
            ));
        }
        j = j + 1;
    }
    assert(tris.take(2 * n as int) =~= tris);
    proof {
        let nv = old(mesh).vertices@.len();
        if indices_in_bounds(*old(mesh)) && ring_below(upper@, nv) && ring_below(lower@, nv) {
            lemma_band_below(upper@, lower@, nv);
            lemma_appends_keep_bounds(*old(mesh), *mesh, tris);
        }
    }
}

/// Appends the side of a prism between two rings of equal length, as
/// `side_triangles` lays it out.
pub fn add_side(mesh: &mut Mesh, bottom: &Vec<usize>, top: &Vec<usize>)
    requires
        bottom@.len() == top@.len(),
    ensures
        appends_faces(*old(mesh), *final(mesh), side_triangles(bottom@, top@)),
        indices_in_bounds(*old(mesh)) && ring_below(bottom@, old(mesh).vertices@.len())
            && ring_below(top@, old(mesh).vertices@.len()) ==> indices_in_bounds(*final(mesh)),
{
    let n = bottom.len();
    let ghost tris = side_triangles(bottom@, top@);
    let ghost f0 = old(mesh).faces@.len();
    let mut i: usize = 0;
    while i < n
        invariant
            n == bottom@.len(),
            n == top@.len(),
            i <= n,
            tris == side_triangles(bottom@, top@),
            f0 == old(mesh).faces@.len(),
            appends_faces(*old(mesh), *mesh, tris.take(2 * i)),
        decreases n - i,
    {
        let ni = (i + 1) % n;
        let ghost before = *mesh;
        push_triangle(mesh, bottom[i], top[i], top[ni]);
        let ghost middle = *mesh;
        push_triangle(mesh, bottom[i], top[ni], bottom[ni]);
        proof {
            assert forall|k: int| 0 <= k < f0 + 2 * i implies mesh.faces@[k] == before.faces@[k] by {
                assert(mesh.faces@.drop_last()[k] == middle.faces@[k]);
                assert(middle.faces@.drop_last()[k] == before.faces@[k]);
            }
            assert(mesh.faces@.drop_last()[f0 + 2 * i] == middle.faces@[f0 + 2 * i]);
            let k0 = 2 * i as int;
            assert(k0 / 2 == i as int && k0 % 2 == 0);
            assert((k0 + 1) / 2 == i as int && (k0 + 1) % 2 == 1);
            assert(tris.take(2 * i + 2)[k0] == tris[k0]);
            assert(tris.take(2 * i + 2)[k0 + 1] == tris[k0 + 1]);
            assert(mesh.face_materials@ =~= old(mesh).face_materials@ + no_materials(
                (2 * i + 2) as nat,
            ));
        }
        i = i + 1;
    }
    assert(tris.take(2 * n as int) =~= tris);
    proof {
        let nv = old(mesh).vertices@.len();
        if indices_in_bounds(*old(mesh)) && ring_below(bottom@, nv) && ring_below(top@, nv) {
            lemma_band_below(bottom@, top@, nv);
            lemma_appends_keep_bounds(*old(mesh), *mesh, tris);
        }
    }
}

/// Appends the faces of a UV sphere: poles `top` and `bottom`, and `rings`
/// of equal length from top to bottom, as `sphere_triangles` lays them out.
pub fn add_sphere_faces(mesh: &mut Mesh, top: usize, bottom: usize, rings: &Vec<Vec<usize>>)
    requires
        rings@.len() >= 1,
        forall|i: int| 0 <= i < rings@.len() ==> #[trigger] rings@[i]@.len() == rings@[0]@.len(),
    ensures
        appends_faces(
            *old(mesh),
            *final(mesh),
            sphere_triangles(top, bottom, Seq::new(rings@.len(), |i: int| rings@[i]@)),
        ),
        final(mesh).faces@.len() == old(mesh).faces@.len() + 2 * rings@[0]@.len() * rings@.len(),
        indices_in_bounds(*old(mesh)) && top < old(mesh).vertices@.len() && bottom < old(
            mesh,
        ).vertices@.len() && (forall|i: int|
            0 <= i < rings@.len() ==> ring_below(#[trigger] rings@[i]@, old(mesh).vertices@.len()))
            ==> indices_in_bounds(*final(mesh)),
{
    let ghost rv = Seq::new(rings@.len(), |i: int| rings@[i]@);
    let n = rings.len();
    add_fan(mesh, top, &rings[0], false);
    let ghost after_top = *mesh;
    assert(ring_bands(rv, 1) =~= Seq::empty());
    assert(fan_triangles(top, rv[0], false) + ring_bands(rv, 1) =~= fan_triangles(top, rv[0], false));
    let mut i: usize = 1;
    while i < n
        invariant
            n == rings@.len(),
            1 <= i <= n,
            rv == Seq::new(rings@.len(), |i: int| rings@[i]@),
            forall|k: int| 0 <= k < rings@.len() ==> #[trigger] rings@[k]@.len() == rings@[0]@.len(),
            appends_faces(*old(mesh), *mesh, fan_triangles(top, rv[0], false) + ring_bands(rv, i as nat)),
        decreases n - i,
    {
        let ghost before = *mesh;
        add_band(mesh, &rings[i - 1], &rings[i]);
        proof {
            lemma_appends_compose(
                *old(mesh),
                before,
                *mesh,
                fan_triangles(top, rv[0], false) + ring_bands(rv, i as nat),
                band_triangles(rv[i - 1], rv[i as int]),
            );
            assert(ring_bands(rv, (i + 1) as nat) == ring_bands(rv, i as nat) + band_triangles(
                rv[i - 1],
                rv[i as int],
            ));
            assert(fan_triangles(top, rv[0], false) + ring_bands(rv, i as nat) + band_triangles(
                rv[i - 1],
                rv[i as int],
            ) =~= fan_triangles(top, rv[0], false) + ring_bands(rv, (i + 1) as nat));
        }
        i = i + 1;
    }
    let ghost before = *mesh;
    add_fan(mesh, bottom, &rings[n - 1], true);
    proof {
        lemma_appends_compose(
            *old(mesh),
            before,
            *mesh,
            fan_triangles(top, rv[0], false) + ring_bands(rv, n as nat),
            fan_triangles(bottom, rv[n - 1], true),
        );
        let s = rings@[0]@.len();
        assert forall|k: int| 0 <= k < rv.len() implies #[trigger] rv[k].len() == s by {}
        lemma_sphere_triangle_count(top, bottom, rv, s);
        assert(2 * s + 2 * s * (n - 1) == 2 * s * n) by (nonlinear_arith);
        let nv = old(mesh).vertices@.len();
        if indices_in_bounds(*old(mesh)) && top < nv && bottom < nv && (forall|i: int|
            0 <= i < rings@.len() ==> ring_below(#[trigger] rings@[i]@, nv)) {
            assert forall|i: int| 0 <= i < rv.len() implies ring_below(#[trigger] rv[i], nv) by {
                assert(ring_below(rings@[i]@, nv));
            }
            lemma_sphere_below(top, bottom, rv, nv);
            lemma_appends_keep_bounds(*old(mesh), *mesh, sphere_triangles(top, bottom, rv));
        }
    }
}

/// Checks that every index of every face is the index of a vertex: a
/// consumer of the mesh (an exporter) relies on it and the mesh does not
/// enforce it as it grows.
pub fn check_indices(mesh: &Mesh) -> (r: Result<(), Error>)
    ensures
        r is Ok <==> indices_in_bounds(*mesh),
        r is Err ==> r->Err_0 is InvalidModelData,
{
    let nv = mesh.vertices.len();
    let mut f: usize = 0;
    while f < mesh.faces.len()
        invariant
            nv == mesh.vertices@.len(),
            f <= mesh.faces@.len(),
            forall|g: int, k: int|
                0 <= g < f && 0 <= k < mesh.faces@[g].indices@.len() ==> #[trigger] mesh.faces@[g].indices@[k]
                    < nv,
        decreases mesh.faces@.len() - f,
    {
        let indices = &mesh.faces[f].indices;
        let mut k: usize = 0;
        while k < indices.len()
            invariant
                nv == mesh.vertices@.len(),
                f < mesh.faces@.len(),
                indices@ == mesh.faces@[f as int].indices@,
                k <= indices@.len(),
                forall|g: int, j: int|
                    0 <= g < f && 0 <= j < mesh.faces@[g].indices@.len() ==> #[trigger] mesh.faces@[g].indices@[j]
                        < nv,
                forall|j: int| 0 <= j < k ==> #[trigger] indices@[j] < nv,
            decreases indices@.len() - k,
        {
            if indices[k] >= nv {
                return Err(Error::InvalidModelData("face index out of range".to_owned()));
            }
            k = k + 1;
        }
        assert forall|g: int, j: int|
            0 <= g < f + 1 && 0 <= j < mesh.faces@[g].indices@.len() implies #[trigger] mesh.faces@[g].indices@[j]
                < nv by {
            if g == f {
                assert(indices@[j] < nv);
            }
        }
        f = f + 1;
    }
    Ok(())
}

} // verus!
