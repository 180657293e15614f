use vstd::prelude::*;
use crate::geometry::{
    cross, dot, face_normal, flat_normal, ints, outward, scale, vsub, Direction, IntVec, Vec3i,
};
use crate::grid::{GridView, VoxelGrid};
use crate::mesher::{
    cell_centre, generate_mesh, quad_corner, quad_index_pattern, surface_faces, Face,
};

verus! {

/// The renderable result: every triangle owns three consecutive vertices, all
/// carrying that triangle's flat normal. Normals are exact integer vectors
/// that point the normal's way; scale them to unit length when converting to
/// floating point.
pub struct FinalMesh {
    pub positions: Vec<Vec3i>,
    pub normals: Vec<Vec3i>,
    pub indices: Vec<u32>,
}

/// The number of vertices a triangle list can address with `u32` indices.
pub const MAX_VERTICES: u64 = 4_294_967_296;

/// The flat normal of the triangle that vertex `k` of `p` belongs to, where
/// each consecutive triple of `p` is one triangle.
pub open spec fn triangle_normal_of(p: Seq<Vec3i>, k: int) -> IntVec {
    let t = k / 3;
    flat_normal(ints(p[3 * t]), ints(p[3 * t + 1]), ints(p[3 * t + 2]))
}

/// Gives every index of a triangle list a vertex of its own: vertex `k` of the
/// result is a copy of `positions[indices[k]]`. A trailing incomplete triangle
/// is dropped.
pub fn duplicate_vertices(positions: &Vec<Vec3i>, indices: &Vec<u32>) -> (r: Vec<Vec3i>)
    requires
        forall|i: int| 0 <= i < indices@.len() ==> (#[trigger] indices@[i]) < positions@.len(),
    ensures
        r@.len() == 3 * (indices@.len() / 3),
        forall|k: int| 0 <= k < r@.len() ==> #[trigger] r@[k] == positions@[indices@[k] as int],
{
    let n = indices.len() / 3 * 3;
    let mut out: Vec<Vec3i> = Vec::with_capacity(n);
    let mut k: usize = 0;
    while k < n
        invariant
            n == 3 * (indices@.len() / 3),
            n <= indices@.len(),
            k <= n,
            out@.len() == k,
            forall|i: int| 0 <= i < indices@.len() ==> (#[trigger] indices@[i]) < positions@.len(),
            forall|j: int| 0 <= j < k ==> #[trigger] out@[j] == positions@[indices@[j] as int],
        decreases n - k,
    {
        let i = indices[k] as usize;
        out.push(positions[i]);
        k = k + 1;
    }
    out
}

/// Computes one normal per vertex of a triangle list whose every consecutive
/// triple is a triangle: the triangle's flat normal, the same for its three
/// vertices.
pub fn compute_flat_normals(positions: &Vec<Vec3i>) -> (r: Vec<Vec3i>)
    requires
        positions@.len() % 3 == 0,
        forall|i: int| 0 <= i < positions@.len() ==> (#[trigger] positions@[i]).in_bound(),
    ensures
        r@.len() == positions@.len(),
        forall|k: int|
            0 <= k < r@.len() ==> #[trigger] ints(r@[k]) == triangle_normal_of(positions@, k),
{
    let n = positions.len();
    let mut out: Vec<Vec3i> = Vec::with_capacity(n);
    let mut t: usize = 0;
    while t < n
        invariant
            n == positions@.len(),
            n % 3 == 0,
            t % 3 == 0,
            t <= n,
            out@.len() == t,
            forall|i: int| 0 <= i < positions@.len() ==> (#[trigger] positions@[i]).in_bound(),
            forall|j: int|
                0 <= j < t ==> #[trigger] ints(out@[j]) == triangle_normal_of(positions@, j),
        decreases n - t,
    {
        let normal = face_normal(positions[t], positions[t + 1], positions[t + 2]);
        out.push(normal);
        out.push(normal);
        out.push(normal);
        proof {
            assert forall|j: int| 0 <= j < t + 3 implies #[trigger] ints(out@[j])
                == triangle_normal_of(positions@, j) by {
                if j >= t {
                    assert(j / 3 == t / 3);
                    assert(3 * (t / 3) == t);
                }
            }
        }
        t = t + 3;
    }
    out
}

/// The flat-shading pass: expands the triangle list so that no vertex is
/// shared, gives each vertex its triangle's flat normal, and numbers the
/// vertices `0, 1, 2, ...`.
pub fn flat_shade(positions: &Vec<Vec3i>, indices: &Vec<u32>) -> (m: FinalMesh)
    requires
        indices@.len() <= MAX_VERTICES,
        forall|i: int| 0 <= i < indices@.len() ==> (#[trigger] indices@[i]) < positions@.len(),
        forall|i: int| 0 <= i < positions@.len() ==> (#[trigger] positions@[i]).in_bound(),
    ensures
        m.positions@.len() == 3 * (indices@.len() / 3),
        m.normals@.len() == m.positions@.len(),
        m.indices@.len() == m.positions@.len(),
        forall|k: int|
            0 <= k < m.positions@.len() ==> #[trigger] m.positions@[k] == positions@[indices@[k] as int],
        forall|k: int|
            0 <= k < m.normals@.len() ==> #[trigger] ints(m.normals@[k]) == triangle_normal_of(
                m.positions@,
                k,
            ),
        forall|k: int| 0 <= k < m.indices@.len() ==> #[trigger] m.indices@[k] as int == k,
        forall|i: int, j: int|
            0 <= i < m.indices@.len() && 0 <= j < m.indices@.len() && #[trigger] m.indices@[i]
                == #[trigger] m.indices@[j] ==> i == j,
{
    let expanded = duplicate_vertices(positions, indices);
    assert forall|i: int| 0 <= i < expanded@.len() implies (#[trigger] expanded@[i]).in_bound() by {
        assert(expanded@[i] == positions@[indices@[i] as int]);
    }
    let normals = compute_flat_normals(&expanded);
    let n = expanded.len();
    let mut numbered: Vec<u32> = Vec::with_capacity(n);
    let mut k: usize = 0;
    while k < n
        invariant
            n == expanded@.len(),
            n <= MAX_VERTICES,
            k <= n,
            numbered@.len() == k,
            forall|j: int| 0 <= j < k ==> #[trigger] numbered@[j] as int == j,
        decreases n - k,
    {
        numbered.push(k as u32);
        k = k + 1;
    }
    FinalMesh { positions: expanded, normals, indices: numbered }
}

/// The flat normal of triangle `t` (0 or 1) of the quad of face `f`.
pub open spec fn quad_triangle_normal(origin: (int, int, int), f: Face, t: int) -> IntVec {
    flat_normal(
        quad_corner(origin, f, quad_index_pattern(3 * t)),
        quad_corner(origin, f, quad_index_pattern(3 * t + 1)),
        quad_corner(origin, f, quad_index_pattern(3 * t + 2)),
    )
}

/// Both triangles of a face's quad have as flat normal four times the unit
/// vector pointing out of the face: the normal points away from the solid cell.
pub proof fn lemma_quad_normal_outward(origin: (int, int, int), f: Face, t: int)
    requires
        t == 0 || t == 1,
    ensures
        quad_triangle_normal(origin, f, t) == scale(4, outward(f.dir)),
        dot(quad_triangle_normal(origin, f, t), outward(f.dir)) > 0,
{
    let c = cell_centre(origin, f);
    let a = quad_corner(origin, f, quad_index_pattern(3 * t));
    let b = quad_corner(origin, f, quad_index_pattern(3 * t + 1));
    let e = quad_corner(origin, f, quad_index_pattern(3 * t + 2));
    let oa = vsub(a, c);
    let ob = vsub(b, c);
    let oe = vsub(e, c);
    let u = vsub(ob, oa);
    let v = vsub(oe, oa);
    assert(vsub(b, a) == u);
    assert(vsub(e, a) == v);
    if t == 0 {
        match f.dir {
            Direction::PosX => {
                assert(u == (0int, 0int, 2int) && v == (0int, -2int, 2int));
                assert(cross(u, v) == cross((0int, 0int, 2int), (0int, -2int, 2int)));
                assert(cross((0int, 0int, 2int), (0int, -2int, 2int)) == (4int, 0int, 0int)) by (nonlinear_arith);
            },
            Direction::NegX => {
                assert(u == (0int, 0int, -2int) && v == (0int, -2int, -2int));
                assert(cross(u, v) == cross((0int, 0int, -2int), (0int, -2int, -2int)));
                assert(cross((0int, 0int, -2int), (0int, -2int, -2int)) == (-4int, 0int, 0int)) by (nonlinear_arith);
            },
            Direction::PosY => {
                assert(u == (0int, 0int, 2int) && v == (2int, 0int, 2int));
                assert(cross(u, v) == cross((0int, 0int, 2int), (2int, 0int, 2int)));
                assert(cross((0int, 0int, 2int), (2int, 0int, 2int)) == (0int, 4int, 0int)) by (nonlinear_arith);
            },
            Direction::NegY => {
                assert(u == (0int, 0int, 2int) && v == (-2int, 0int, 2int));
                assert(cross(u, v) == cross((0int, 0int, 2int), (-2int, 0int, 2int)));
                assert(cross((0int, 0int, 2int), (-2int, 0int, 2int)) == (0int, -4int, 0int)) by (nonlinear_arith);
            },
            Direction::PosZ => {
                assert(u == (-2int, 0int, 0int) && v == (-2int, -2int, 0int));
                assert(cross(u, v) == cross((-2int, 0int, 0int), (-2int, -2int, 0int)));
                assert(cross((-2int, 0int, 0int), (-2int, -2int, 0int)) == (0int, 0int, 4int)) by (nonlinear_arith);
            },
            Direction::NegZ => {
                assert(u == (2int, 0int, 0int) && v == (2int, -2int, 0int));
                assert(cross(u, v) == cross((2int, 0int, 0int), (2int, -2int, 0int)));
                assert(cross((2int, 0int, 0int), (2int, -2int, 0int)) == (0int, 0int, -4int)) by (nonlinear_arith);
            },
        }
    } else {
        match f.dir {
            Direction::PosX => {
                assert(u == (0int, -2int, 2int) && v == (0int, -2int, 0int));
                assert(cross(u, v) == cross((0int, -2int, 2int), (0int, -2int, 0int)));
                assert(cross((0int, -2int, 2int), (0int, -2int, 0int)) == (4int, 0int, 0int)) by (nonlinear_arith);
            },
            Direction::NegX => {
                assert(u == (0int, -2int, -2int) && v == (0int, -2int, 0int));
                assert(cross(u, v) == cross((0int, -2int, -2int), (0int, -2int, 0int)));
                assert(cross((0int, -2int, -2int), (0int, -2int, 0int)) == (-4int, 0int, 0int)) by (nonlinear_arith);
            },
            Direction::PosY => {
                assert(u == (2int, 0int, 2int) && v == (2int, 0int, 0int));
                assert(cross(u, v) == cross((2int, 0int, 2int), (2int, 0int, 0int)));
                assert(cross((2int, 0int, 2int), (2int, 0int, 0int)) == (0int, 4int, 0int)) by (nonlinear_arith);
            },
            Direction::NegY => {
                assert(u == (-2int, 0int, 2int) && v == (-2int, 0int, 0int));
                assert(cross(u, v) == cross((-2int, 0int, 2int), (-2int, 0int, 0int)));
                assert(cross((-2int, 0int, 2int), (-2int, 0int, 0int)) == (0int, -4int, 0int)) by (nonlinear_arith);
            },
            Direction::PosZ => {
                assert(u == (-2int, -2int, 0int) && v == (0int, -2int, 0int));
                assert(cross(u, v) == cross((-2int, -2int, 0int), (0int, -2int, 0int)));
                assert(cross((-2int, -2int, 0int), (0int, -2int, 0int)) == (0int, 0int, 4int)) by (nonlinear_arith);
            },
            Direction::NegZ => {
                assert(u == (2int, -2int, 0int) && v == (0int, -2int, 0int));
                assert(cross(u, v) == cross((2int, -2int, 0int), (0int, -2int, 0int)));
                assert(cross((2int, -2int, 0int), (0int, -2int, 0int)) == (0int, 0int, -4int)) by (nonlinear_arith);
            },
        }
    }
    assert(cross(vsub(b, a), vsub(e, a)) == cross(u, v));
}

/// Position of vertex `k` of the mesh of grid `g`: each visible face gives six
/// consecutive vertices, the corners of its two triangles.
pub open spec fn mesh_vertex(g: GridView, k: int) -> IntVec {
    quad_corner(g.origin, surface_faces(g)[k / 6], quad_index_pattern(k % 6))
}

/// Normal of vertex `k` of the mesh of grid `g`.
pub open spec fn mesh_normal(g: GridView, k: int) -> IntVec {
    scale(4, outward(surface_faces(g)[k / 6].dir))
}

impl FinalMesh {
    /// The buffers are the mesh of grid `g`: six vertices per visible face,
    /// numbered in order, each with its face's outward normal.
    pub open spec fn is_mesh_of(self, g: GridView) -> bool {
        &&& self.positions@.len() == 6 * surface_faces(g).len()
        &&& self.normals@.len() == self.positions@.len()
        &&& self.indices@.len() == self.positions@.len()
        &&& forall|k: int|
            0 <= k < self.positions@.len() ==> #[trigger] ints(self.positions@[k]) == mesh_vertex(
                g,
                k,
            )
        &&& forall|k: int|
            0 <= k < self.normals@.len() ==> #[trigger] ints(self.normals@[k]) == mesh_normal(g, k)
        &&& forall|k: int| 0 <= k < self.indices@.len() ==> #[trigger] self.indices@[k] as int == k
    }
}

/// Meshing is deterministic: two meshes of grids with the same content have
/// identical position, normal and index buffers.
pub proof fn lemma_mesh_is_deterministic(m1: FinalMesh, m2: FinalMesh, g1: GridView, g2: GridView)
    requires
        g1 == g2,
        m1.is_mesh_of(g1),
        m2.is_mesh_of(g2),
    ensures
        m1.positions@ == m2.positions@,
        m1.normals@ == m2.normals@,
        m1.indices@ == m2.indices@,
{
    assert forall|k: int| 0 <= k < m1.positions@.len() implies m1.positions@[k] == m2.positions@[k] by {
        assert(ints(m1.positions@[k]) == ints(m2.positions@[k]));
    }
    assert forall|k: int| 0 <= k < m1.normals@.len() implies m1.normals@[k] == m2.normals@[k] by {
        assert(ints(m1.normals@[k]) == ints(m2.normals@[k]));
    }
    assert forall|k: int| 0 <= k < m1.indices@.len() implies m1.indices@[k] == m2.indices@[k] by {
        assert(m1.indices@[k] as int == k && m2.indices@[k] as int == k);
    }
    assert(m1.positions@ =~= m2.positions@);
    assert(m1.normals@ =~= m2.normals@);
    assert(m1.indices@ =~= m2.indices@);
}

/// The whole pipeline on a grid: the visible faces become quads, which the
/// flat-shading pass expands into independent triangles with their normals.
pub fn build_mesh(grid: &VoxelGrid) -> (m: FinalMesh)
    requires
        grid.wf(),
    ensures
        m.is_mesh_of(grid@),
        forall|k: int|
            0 <= k < m.normals@.len() ==> #[trigger] ints(m.normals@[k]) == triangle_normal_of(
                m.positions@,
                k,
            ),
{
    let ghost g = grid@;
    let raw = generate_mesh(grid);
    let ghost n = raw.faces@.len();
    assert forall|i: int| 0 <= i < raw.indices@.len() implies (#[trigger] raw.indices@[i])
        < raw.positions@.len() by {
        assert(raw.indices@[i] as int == 4 * (i / 6) + quad_index_pattern(i % 6));
    }
    let m = flat_shade(&raw.positions, &raw.indices);
    assert forall|k: int| 0 <= k < m.positions@.len() implies #[trigger] ints(m.positions@[k])
        == mesh_vertex(g, k) by {
        let q = k / 6;
        let p = quad_index_pattern(k % 6);
        assert(raw.indices@[k] as int == 4 * q + p);
        assert((4 * q + p) / 4 == q && (4 * q + p) % 4 == p);
        assert(m.positions@[k] == raw.positions@[4 * q + p]);
    }
    assert forall|k: int| 0 <= k < m.normals@.len() implies #[trigger] ints(m.normals@[k])
        == mesh_normal(g, k) by {
        let tri = k / 3;
        let q = k / 6;
        let t = tri % 2;
        let f = surface_faces(g)[q];
        assert(3 * tri + 2 < m.positions@.len());
        assert forall|j: int| 0 <= j < 3 implies ints(#[trigger] m.positions@[3 * tri + j])
            == quad_corner(g.origin, f, quad_index_pattern(3 * t + j)) by {
            assert((3 * tri + j) / 6 == q && (3 * tri + j) % 6 == 3 * t + j);
            assert(ints(m.positions@[3 * tri + j]) == mesh_vertex(g, 3 * tri + j));
        }
        assert(ints(m.positions@[3 * tri]) == quad_corner(g.origin, f, quad_index_pattern(3 * t)));
        assert(ints(m.positions@[3 * tri + 1]) == quad_corner(g.origin, f, quad_index_pattern(3 * t + 1)));
        assert(ints(m.positions@[3 * tri + 2]) == quad_corner(g.origin, f, quad_index_pattern(3 * t + 2)));
        lemma_quad_normal_outward(g.origin, f, t);
    }
    m
}

} // verus!
