use vstd::prelude::*;
use vstd::seq_lib::{lemma_no_dup_in_concat, lemma_seq_concat_contains_all_elements};
use crate::geometry::{
    corner_offset, face_corner_offset, ints, outward, vadd, Direction, IntVec, Vec3i,
};
use crate::grid::{lemma_offset_in_range, GridView, VoxelGrid, MAX_CELLS, ORIGIN_LIMIT};

verus! {

/// The face of cell `(x, y, z)` that looks in direction `dir`.
#[derive(Clone, Copy, Debug, PartialEq, Eq, Structural)]
pub struct Face {
    pub x: usize,
    pub y: usize,
    pub z: usize,
    pub dir: Direction,
}

/// The mesher's output: one quad per entry of `faces`. Quad `q` owns the four
/// positions `4q .. 4q + 4` and the six indices `6q .. 6q + 6`, which split it
/// into the triangles `(v0, v1, v2)` and `(v0, v2, v3)`.
pub struct RawSurface {
    pub faces: Vec<Face>,
    pub positions: Vec<Vec3i>,
    pub indices: Vec<u32>,
}

/// The cell next to `(x, y, z)` in direction `d`.
pub open spec fn neighbor(x: int, y: int, z: int, d: Direction) -> IntVec {
    vadd((x, y, z), outward(d))
}

/// Whether the face of `(x, y, z)` in direction `d` is visible: the cell is
/// occupied and its neighbour there is empty or outside the grid.
pub open spec fn exposed(g: GridView, x: int, y: int, z: int, d: Direction) -> bool {
    let n = neighbor(x, y, z, d);
    g.occupied(x, y, z) && !g.occupied(n.0, n.1, n.2)
}

pub open spec fn face_exposed(g: GridView, f: Face) -> bool {
    exposed(g, f.x as int, f.y as int, f.z as int, f.dir)
}

pub open spec fn face_at(x: int, y: int, z: int, d: Direction) -> Face {
    Face { x: x as usize, y: y as usize, z: z as usize, dir: d }
}

pub open spec fn face_if_exposed(g: GridView, x: int, y: int, z: int, d: Direction) -> Seq<Face> {
    if exposed(g, x, y, z, d) {
        seq![face_at(x, y, z, d)]
    } else {
        Seq::empty()
    }
}

/// The visible faces of one cell, in the order +X, -X, +Y, -Y, +Z, -Z.
pub open spec fn cell_faces(g: GridView, x: int, y: int, z: int) -> Seq<Face> {
    face_if_exposed(g, x, y, z, Direction::PosX)
        + face_if_exposed(g, x, y, z, Direction::NegX)
        + face_if_exposed(g, x, y, z, Direction::PosY)
        + face_if_exposed(g, x, y, z, Direction::NegY)
        + face_if_exposed(g, x, y, z, Direction::PosZ)
        + face_if_exposed(g, x, y, z, Direction::NegZ)
}

/// The visible faces of cells `(x, y, 0) .. (x, y, z)`.
pub open spec fn row_faces(g: GridView, x: int, y: int, z: int) -> Seq<Face>
    decreases z,
{
    if z <= 0 {
        Seq::empty()
    } else {
        row_faces(g, x, y, z - 1) + cell_faces(g, x, y, z - 1)
    }
}

/// The visible faces of the rows `0 .. y` of slab `x`.
pub open spec fn slab_faces(g: GridView, x: int, y: int) -> Seq<Face>
    decreases y,
{
    if y <= 0 {
        Seq::empty()
    } else {
        slab_faces(g, x, y - 1) + row_faces(g, x, y - 1, g.depth as int)
    }
}

/// The visible faces of the slabs `0 .. x`.
pub open spec fn faces_before(g: GridView, x: int) -> Seq<Face>
    decreases x,
{
    if x <= 0 {
        Seq::empty()
    } else {
        faces_before(g, x - 1) + slab_faces(g, x - 1, g.height as int)
    }
}

/// Every visible face of the grid, cell by cell in storage order.
pub open spec fn surface_faces(g: GridView) -> Seq<Face> {
    faces_before(g, g.width as int)
}

/// The centre of a face's cell, in half cell widths.
pub open spec fn cell_centre(origin: (int, int, int), f: Face) -> IntVec {
    (2 * (f.x + origin.0), 2 * (f.y + origin.1), 2 * (f.z + origin.2))
}

/// The `k`-th corner of the quad for face `f`.
pub open spec fn quad_corner(origin: (int, int, int), f: Face, k: int) -> IntVec {
    vadd(cell_centre(origin, f), face_corner_offset(f.dir, k))
}

/// Which of a quad's four corners the `j`-th of its six indices names.
pub open spec fn quad_index_pattern(j: int) -> int {
    if j == 0 || j == 3 {
        0
    } else if j == 1 {
        1
    } else if j == 2 || j == 4 {
        2
    } else {
        3
    }
}

impl RawSurface {
    /// The positions and indices are the quads of `faces`, for a grid at `origin`.
    pub open spec fn wf_for(self, origin: (int, int, int)) -> bool {
        let n = self.faces@.len();
        &&& self.positions@.len() == 4 * n
        &&& self.indices@.len() == 6 * n
        &&& forall|i: int|
            0 <= i < 4 * n ==> #[trigger] ints(self.positions@[i]) == quad_corner(
                origin,
                self.faces@[i / 4],
                i % 4,
            )
        &&& forall|i: int|
            0 <= i < 6 * n ==> #[trigger] self.indices@[i] as int == 4 * (i / 6)
                + quad_index_pattern(i % 6)
        &&& forall|i: int| 0 <= i < 4 * n ==> (#[trigger] self.positions@[i]).in_bound()
    }
}

pub open spec fn origin_ok(origin: (i64, i64, i64)) -> bool {
    &&& -ORIGIN_LIMIT <= origin.0 <= ORIGIN_LIMIT
    &&& -ORIGIN_LIMIT <= origin.1 <= ORIGIN_LIMIT
    &&& -ORIGIN_LIMIT <= origin.2 <= ORIGIN_LIMIT
}

pub open spec fn origin_ints(origin: (i64, i64, i64)) -> (int, int, int) {
    (origin.0 as int, origin.1 as int, origin.2 as int)
}

fn quad_corner_at(origin: (i64, i64, i64), face: Face, k: usize) -> (r: Vec3i)
    requires
        origin_ok(origin),
        face.x < MAX_CELLS,
        face.y < MAX_CELLS,
        face.z < MAX_CELLS,
        k < 4,
    ensures
        ints(r) == quad_corner(origin_ints(origin), face, k as int),
        r.in_bound(),
{
    let off = corner_offset(face.dir, k);
    Vec3i {
        x: 2 * (face.x as i64 + origin.0) + off.x,
        y: 2 * (face.y as i64 + origin.1) + off.y,
        z: 2 * (face.z as i64 + origin.2) + off.z,
    }
}

/// Appends the quad of `face`: its four corners and the six indices of its two
/// triangles.
pub fn add_quad(surface: &mut RawSurface, origin: (i64, i64, i64), face: Face)
    requires
        old(surface).wf_for(origin_ints(origin)),
        old(surface).faces@.len() < 6 * MAX_CELLS,
        origin_ok(origin),
        face.x < MAX_CELLS,
        face.y < MAX_CELLS,
        face.z < MAX_CELLS,
    ensures
        final(surface).wf_for(origin_ints(origin)),
        final(surface).faces@ == old(surface).faces@.push(face),
{
    let ghost o = origin_ints(origin);
    let base = surface.positions.len();
    let p0 = quad_corner_at(origin, face, 0);
    let p1 = quad_corner_at(origin, face, 1);
    let p2 = quad_corner_at(origin, face, 2);
    let p3 = quad_corner_at(origin, face, 3);
    surface.positions.push(p0);
    surface.positions.push(p1);
    surface.positions.push(p2);
    surface.positions.push(p3);
    let i = base as u32;
    surface.indices.push(i);
    surface.indices.push(i + 1);
    surface.indices.push(i + 2);
    surface.indices.push(i);
    surface.indices.push(i + 2);
    surface.indices.push(i + 3);
    surface.faces.push(face);
    proof {
        let n = old(surface).faces@.len();
        let s = *surface;
        assert forall|j: int| 0 <= j < 4 * (n + 1) implies #[trigger] ints(s.positions@[j])
            == quad_corner(o, s.faces@[j / 4], j % 4) by {
            if j < 4 * n {
                assert(s.positions@[j] == old(surface).positions@[j]);
                assert(s.faces@[j / 4] == old(surface).faces@[j / 4]);
            }
        }
        assert forall|j: int| 0 <= j < 6 * (n + 1) implies #[trigger] s.indices@[j] as int == 4
            * (j / 6) + quad_index_pattern(j % 6) by {
            if j < 6 * n {
                assert(s.indices@[j] == old(surface).indices@[j]);
            }
        }
        assert forall|j: int| 0 <= j < 4 * (n + 1) implies (#[trigger] s.positions@[j]).in_bound() by {
            if j < 4 * n {
                assert(s.positions@[j] == old(surface).positions@[j]);
            }
        }
    }
}

/// Appends the quad of the face of `(x, y, z)` in direction `d` when that face
/// is visible.
fn add_face_if_exposed(
    grid: &VoxelGrid,
    surface: &mut RawSurface,
    x: usize,
    y: usize,
    z: usize,
    d: Direction,
)
    requires
        grid.wf(),
        grid@.in_bounds(x as int, y as int, z as int),
        old(surface).wf_for(grid@.origin),
        old(surface).faces@.len() < 6 * MAX_CELLS,
    ensures
        final(surface).wf_for(grid@.origin),
        final(surface).faces@ == old(surface).faces@ + face_if_exposed(
            grid@,
            x as int,
            y as int,
            z as int,
            d,
        ),
{
    let ghost g = grid@;
    proof {
        lemma_offset_in_range(g.width, g.height, g.depth, x as int, y as int, z as int);
    }
    let (cx, cy, cz) = (x as i64, y as i64, z as i64);
    let (nx, ny, nz) = match d {
        Direction::PosX => (cx + 1, cy, cz),
        Direction::NegX => (cx - 1, cy, cz),
        Direction::PosY => (cx, cy + 1, cz),
        Direction::NegY => (cx, cy - 1, cz),
        Direction::PosZ => (cx, cy, cz + 1),
        Direction::NegZ => (cx, cy, cz - 1),
    };
    if grid.is_occupied(cx, cy, cz) && !grid.is_occupied(nx, ny, nz) {
        let face = Face { x, y, z, dir: d };
        assert(face == face_at(x as int, y as int, z as int, d));
        add_quad(surface, grid.origin(), face);
        assert(final(surface).faces@ =~= old(surface).faces@ + face_if_exposed(
            g,
            x as int,
            y as int,
            z as int,
            d,
        ));
    } else {
        assert(old(surface).faces@ =~= old(surface).faces@ + face_if_exposed(
            g,
            x as int,
            y as int,
            z as int,
            d,
        ));
    }
}

/// Appends the quads of every visible face of cell `(x, y, z)`.
fn add_cell_faces(grid: &VoxelGrid, surface: &mut RawSurface, x: usize, y: usize, z: usize)
    requires
        grid.wf(),
        grid@.in_bounds(x as int, y as int, z as int),
        old(surface).wf_for(grid@.origin),
        old(surface).faces@.len() + 6 <= 6 * MAX_CELLS,
    ensures
        final(surface).wf_for(grid@.origin),
        final(surface).faces@ == old(surface).faces@ + cell_faces(
            grid@,
            x as int,
            y as int,
            z as int,
        ),
{
    let ghost g = grid@;
    let ghost (ix, iy, iz) = (x as int, y as int, z as int);
    add_face_if_exposed(grid, surface, x, y, z, Direction::PosX);
    add_face_if_exposed(grid, surface, x, y, z, Direction::NegX);
    add_face_if_exposed(grid, surface, x, y, z, Direction::PosY);
    add_face_if_exposed(grid, surface, x, y, z, Direction::NegY);
    add_face_if_exposed(grid, surface, x, y, z, Direction::PosZ);
    add_face_if_exposed(grid, surface, x, y, z, Direction::NegZ);
    assert(surface.faces@ =~= old(surface).faces@ + cell_faces(g, ix, iy, iz));
}

/// Walks the grid and emits one quad for every face between an occupied cell
/// and an empty neighbour or the grid's edge.
pub fn generate_mesh(grid: &VoxelGrid) -> (r: RawSurface)
    requires
        grid.wf(),
    ensures
        r.faces@ == surface_faces(grid@),
        r.wf_for(grid@.origin),
        r.faces@.len() <= 6 * grid@.volume(),
{
    let ghost g = grid@;
    let w = grid.width();
    let h = grid.height();
    let d = grid.depth();
    let mut surface = RawSurface { faces: Vec::new(), positions: Vec::new(), indices: Vec::new() };
    assert(surface.faces@ =~= faces_before(g, 0));
    let mut x: usize = 0;
    while x < w
        invariant
            grid.wf(),
            g == grid@,
            w == g.width,
            h == g.height,
            d == g.depth,
            x <= w,
            surface.wf_for(g.origin),
            surface.faces@ == faces_before(g, x as int),
            surface.faces@.len() <= 6 * (x * h * d),
        decreases w - x,
    {
        let mut y: usize = 0;
        assert(surface.faces@ =~= faces_before(g, x as int) + slab_faces(g, x as int, 0));
        while y < h
            invariant
                grid.wf(),
                g == grid@,
                w == g.width,
                h == g.height,
                d == g.depth,
                x < w,
                y <= h,
                surface.wf_for(g.origin),
                surface.faces@ == faces_before(g, x as int) + slab_faces(g, x as int, y as int),
                surface.faces@.len() <= 6 * ((x * h + y) * d),
            decreases h - y,
        {
            let mut z: usize = 0;
            assert(surface.faces@ =~= faces_before(g, x as int) + slab_faces(g, x as int, y as int)
                + row_faces(g, x as int, y as int, 0));
            while z < d
                invariant
                    grid.wf(),
                    g == grid@,
                    w == g.width,
                    h == g.height,
                    d == g.depth,
                    x < w,
                    y < h,
                    z <= d,
                    surface.wf_for(g.origin),
                    surface.faces@ == faces_before(g, x as int) + slab_faces(g, x as int, y as int)
                        + row_faces(g, x as int, y as int, z as int),
                    surface.faces@.len() <= 6 * ((x * h + y) * d + z),
                decreases d - z,
            {
                proof {
                    lemma_offset_in_range(g.width, g.height, g.depth, x as int, y as int, z as int);
                }
                add_cell_faces(grid, &mut surface, x, y, z);
                assert(surface.faces@ =~= faces_before(g, x as int) + slab_faces(g, x as int, y as int)
                    + row_faces(g, x as int, y as int, z + 1));
                z = z + 1;
            }
            assert(surface.faces@ =~= faces_before(g, x as int) + slab_faces(g, x as int, y + 1));
            assert((x * h + y) * d + d == (x * h + (y + 1)) * d) by (nonlinear_arith);
            y = y + 1;
        }
        assert(surface.faces@ =~= faces_before(g, x + 1));
        assert((x * h + h) * d == (x + 1) * h * d) by (nonlinear_arith);
        x = x + 1;
    }
    surface
}

proof fn lemma_cell_faces(g: GridView, x: int, y: int, z: int)
    requires
        g.wf(),
        g.in_bounds(x, y, z),
    ensures
        forall|i: int|
            0 <= i < cell_faces(g, x, y, z).len() ==> face_exposed(
                g,
                #[trigger] cell_faces(g, x, y, z)[i],
            ) && cell_faces(g, x, y, z)[i].x == x && cell_faces(g, x, y, z)[i].y == y
                && cell_faces(g, x, y, z)[i].z == z,
        forall|f: Face|
            face_exposed(g, f) && f.x == x && f.y == y && f.z == z ==> #[trigger] cell_faces(
                g,
                x,
                y,
                z,
            ).contains(f),
        cell_faces(g, x, y, z).no_duplicates(),
{
    broadcast use lemma_seq_concat_contains_all_elements;

    let s = cell_faces(g, x, y, z);
    lemma_offset_in_range(g.width, g.height, g.depth, x, y, z);
    assert forall|i: int| 0 <= i < s.len() implies face_exposed(g, #[trigger] s[i]) && s[i].x == x
        && s[i].y == y && s[i].z == z by {
        assert(s.contains(s[i]));
    }
    assert forall|f: Face|
        face_exposed(g, f) && f.x == x && f.y == y && f.z == z implies #[trigger] s.contains(f) by {
        assert(f == face_at(x, y, z, f.dir));
        assert(face_if_exposed(g, x, y, z, f.dir)[0] == f);
        assert(face_if_exposed(g, x, y, z, f.dir).contains(f));
    }
}

/// Which faces a row prefix of cells lists.
proof fn lemma_row_faces(g: GridView, x: int, y: int, z: int)
    requires
        g.wf(),
        0 <= x < g.width,
        0 <= y < g.height,
        0 <= z <= g.depth,
    ensures
        forall|i: int|
            0 <= i < row_faces(g, x, y, z).len() ==> face_exposed(
                g,
                #[trigger] row_faces(g, x, y, z)[i],
            ) && row_faces(g, x, y, z)[i].x == x && row_faces(g, x, y, z)[i].y == y
                && row_faces(g, x, y, z)[i].z < z,
        forall|f: Face|
            face_exposed(g, f) && f.x == x && f.y == y && f.z < z ==> #[trigger] row_faces(
                g,
                x,
                y,
                z,
            ).contains(f),
        row_faces(g, x, y, z).no_duplicates(),
    decreases z,
{
    broadcast use lemma_seq_concat_contains_all_elements;

    if z > 0 {
        lemma_row_faces(g, x, y, z - 1);
        lemma_cell_faces(g, x, y, z - 1);
        let a = row_faces(g, x, y, z - 1);
        let b = cell_faces(g, x, y, z - 1);
        assert forall|i: int, j: int| 0 <= i < a.len() && 0 <= j < b.len() implies a[i] != b[j] by {
            assert(a[i].z < z - 1);
            assert(b[j].z == z - 1);
        }
        lemma_no_dup_in_concat(a, b);
        assert forall|i: int| 0 <= i < (a + b).len() implies face_exposed(g, #[trigger] (a + b)[i])
            && (a + b)[i].x == x && (a + b)[i].y == y && (a + b)[i].z < z by {
            if i < a.len() {
                assert((a + b)[i] == a[i]);
            } else {
                assert((a + b)[i] == b[i - a.len()]);
            }
        }
    }
}

/// Which faces a prefix of the rows of a slab lists.
proof fn lemma_slab_faces(g: GridView, x: int, y: int)
    requires
        g.wf(),
        0 <= x < g.width,
        0 <= y <= g.height,
    ensures
        forall|i: int|
            0 <= i < slab_faces(g, x, y).len() ==> face_exposed(
                g,
                #[trigger] slab_faces(g, x, y)[i],
            ) && slab_faces(g, x, y)[i].x == x && slab_faces(g, x, y)[i].y < y,
        forall|f: Face|
            face_exposed(g, f) && f.x == x && f.y < y ==> #[trigger] slab_faces(g, x, y).contains(f),
        slab_faces(g, x, y).no_duplicates(),
    decreases y,
{
    broadcast use lemma_seq_concat_contains_all_elements;

    if y > 0 {
        lemma_slab_faces(g, x, y - 1);
        lemma_row_faces(g, x, y - 1, g.depth as int);
        let a = slab_faces(g, x, y - 1);
        let b = row_faces(g, x, y - 1, g.depth as int);
        assert forall|i: int, j: int| 0 <= i < a.len() && 0 <= j < b.len() implies a[i] != b[j] by {
            assert(a[i].y < y - 1);
            assert(b[j].y == y - 1);
        }
        lemma_no_dup_in_concat(a, b);
        assert forall|i: int| 0 <= i < (a + b).len() implies face_exposed(g, #[trigger] (a + b)[i])
            && (a + b)[i].x == x && (a + b)[i].y < y by {
            if i < a.len() {
                assert((a + b)[i] == a[i]);
            } else {
                assert((a + b)[i] == b[i - a.len()]);
            }
        }
    }
}

/// Which faces the slabs `0 .. x` list.
proof fn lemma_faces_before(g: GridView, x: int)
    requires
        g.wf(),
        0 <= x <= g.width,
    ensures
        forall|i: int|
            0 <= i < faces_before(g, x).len() ==> face_exposed(g, #[trigger] faces_before(g, x)[i])
                && faces_before(g, x)[i].x < x,
        forall|f: Face| face_exposed(g, f) && f.x < x ==> #[trigger] faces_before(g, x).contains(f),
        faces_before(g, x).no_duplicates(),
    decreases x,
{
    broadcast use lemma_seq_concat_contains_all_elements;

    if x > 0 {
        lemma_faces_before(g, x - 1);
        lemma_slab_faces(g, x - 1, g.height as int);
        let a = faces_before(g, x - 1);
        let b = slab_faces(g, x - 1, g.height as int);
        assert forall|i: int, j: int| 0 <= i < a.len() && 0 <= j < b.len() implies a[i] != b[j] by {
            assert(a[i].x < x - 1);
            assert(b[j].x == x - 1);
        }
        lemma_no_dup_in_concat(a, b);
        assert forall|i: int| 0 <= i < (a + b).len() implies face_exposed(g, #[trigger] (a + b)[i])
            && (a + b)[i].x < x by {
            if i < a.len() {
                assert((a + b)[i] == a[i]);
            } else {
                assert((a + b)[i] == b[i - a.len()]);
            }
        }
    }
}

/// The mesher's faces are exactly the grid's boundary: each listed face lies
/// between an occupied cell and an empty cell or the grid's edge, each such
/// face is listed, and none is listed twice.
pub proof fn lemma_surface_is_boundary(g: GridView)
    requires
        g.wf(),
    ensures
        forall|i: int|
            0 <= i < surface_faces(g).len() ==> face_exposed(g, #[trigger] surface_faces(g)[i]),
        forall|x: int, y: int, z: int, d: Direction|
            exposed(g, x, y, z, d) ==> #[trigger] surface_faces(g).contains(face_at(x, y, z, d)),
        surface_faces(g).no_duplicates(),
{
    lemma_faces_before(g, g.width as int);
    assert forall|x: int, y: int, z: int, d: Direction| exposed(g, x, y, z, d) implies #[trigger] surface_faces(
        g,
    ).contains(face_at(x, y, z, d)) by {
        let f = face_at(x, y, z, d);
        lemma_offset_in_range(g.width, g.height, g.depth, x, y, z);
        assert(f.x == x && f.y == y && f.z == z);
        assert(face_exposed(g, f));
    }
}

/// A cell whose six neighbours are all occupied gets no face at all.
pub proof fn lemma_interior_cell_has_no_faces(g: GridView, x: int, y: int, z: int)
    requires
        g.wf(),
        g.occupied(x + 1, y, z),
        g.occupied(x - 1, y, z),
        g.occupied(x, y + 1, z),
        g.occupied(x, y - 1, z),
        g.occupied(x, y, z + 1),
        g.occupied(x, y, z - 1),
    ensures
        forall|i: int|
            0 <= i < surface_faces(g).len() ==> !(#[trigger] surface_faces(g)[i].x == x
                && surface_faces(g)[i].y == y && surface_faces(g)[i].z == z),
{
    lemma_surface_is_boundary(g);
}

/// Every cell of the grid is occupied.
pub open spec fn is_solid(g: GridView) -> bool {
    forall|x: int, y: int, z: int| g.in_bounds(x, y, z) ==> #[trigger] g.occupied(x, y, z)
}

/// How many of the two end positions `0` and `n - 1` of an axis `i` is.
spec fn ends_at(i: int, n: int) -> int {
    (if i == 0 { 1int } else { 0int }) + (if i == n - 1 { 1int } else { 0int })
}

/// How many end positions of an axis of length `n` lie below `i`, for `i <= n`.
spec fn ends_below(i: int, n: int) -> int {
    (if i > 0 { 1int } else { 0int }) + (if i >= n { 1int } else { 0int })
}

proof fn lemma_solid_cell_count(g: GridView, x: int, y: int, z: int)
    requires
        g.wf(),
        is_solid(g),
        g.in_bounds(x, y, z),
    ensures
        cell_faces(g, x, y, z).len() == ends_at(x, g.width as int) + ends_at(y, g.height as int)
            + ends_at(z, g.depth as int),
{
    assert(g.occupied(x, y, z));
    assert(g.occupied(x + 1, y, z) <==> x + 1 < g.width);
    assert(g.occupied(x - 1, y, z) <==> x > 0);
    assert(g.occupied(x, y + 1, z) <==> y + 1 < g.height);
    assert(g.occupied(x, y - 1, z) <==> y > 0);
    assert(g.occupied(x, y, z + 1) <==> z + 1 < g.depth);
    assert(g.occupied(x, y, z - 1) <==> z > 0);
}

proof fn lemma_solid_row_count(g: GridView, x: int, y: int, z: int)
    requires
        g.wf(),
        is_solid(g),
        0 <= x < g.width,
        0 <= y < g.height,
        0 <= z <= g.depth,
    ensures
        row_faces(g, x, y, z).len() == z * (ends_at(x, g.width as int) + ends_at(
            y,
            g.height as int,
        )) + ends_below(z, g.depth as int),
    decreases z,
{
    if z > 0 {
        lemma_solid_row_count(g, x, y, z - 1);
        lemma_solid_cell_count(g, x, y, z - 1);
        let k = ends_at(x, g.width as int) + ends_at(y, g.height as int);
        assert(row_faces(g, x, y, z).len() == row_faces(g, x, y, z - 1).len() + cell_faces(g, x, y, z - 1).len());
        assert(ends_below(z, g.depth as int) == ends_below(z - 1, g.depth as int) + ends_at(z - 1, g.depth as int));
        assert((z - 1) * k + k == z * k) by (nonlinear_arith);
        assert(row_faces(g, x, y, z - 1).len() == (z - 1) * k + ends_below(z - 1, g.depth as int));
        assert(cell_faces(g, x, y, z - 1).len() == k + ends_at(z - 1, g.depth as int));
    } else {
        assert(row_faces(g, x, y, z).len() == 0);
        assert(ends_below(z, g.depth as int) == 0);
    }
}

proof fn lemma_solid_slab_count(g: GridView, x: int, y: int)
    requires
        g.wf(),
        is_solid(g),
        0 <= x < g.width,
        0 <= y <= g.height,
    ensures
        slab_faces(g, x, y).len() == y * (g.depth * ends_at(x, g.width as int) + 2) + g.depth
            * ends_below(y, g.height as int),
    decreases y,
{
    if y > 0 {
        let d = g.depth as int;
        let ex = ends_at(x, g.width as int);
        let ey = ends_at(y - 1, g.height as int);
        let below = ends_below(y - 1, g.height as int);
        lemma_solid_slab_count(g, x, y - 1);
        lemma_solid_row_count(g, x, y - 1, d);
        assert(ends_below(y, g.height as int) == below + ey);
        assert(ends_below(d, d) == 2);
        assert(slab_faces(g, x, y).len() == slab_faces(g, x, y - 1).len() + row_faces(g, x, y - 1, d).len());
        assert(slab_faces(g, x, y - 1).len() == (y - 1) * (d * ex + 2) + d * below);
        assert(row_faces(g, x, y - 1, d).len() == d * (ex + ey) + 2);
        assert((y - 1) * (d * ex + 2) + d * below + d * (ex + ey) + 2 == y * (d * ex + 2) + d * (
        below + ey)) by (nonlinear_arith);
    } else {
        assert(ends_below(y, g.height as int) == 0);
        assert(slab_faces(g, x, y).len() == 0);
    }
}

proof fn lemma_solid_count_before(g: GridView, x: int)
    requires
        g.wf(),
        is_solid(g),
        0 <= x <= g.width,
    ensures
        faces_before(g, x).len() == x * (2 * g.depth + 2 * g.height) + g.height * g.depth
            * ends_below(x, g.width as int),
    decreases x,
{
    if x > 0 {
        let h = g.height as int;
        let d = g.depth as int;
        let ex = ends_at(x - 1, g.width as int);
        let below = ends_below(x - 1, g.width as int);
        lemma_solid_count_before(g, x - 1);
        lemma_solid_slab_count(g, x - 1, h);
        assert(ends_below(x, g.width as int) == below + ex);
        assert(ends_below(h, h) == 2);
        assert(faces_before(g, x).len() == faces_before(g, x - 1).len() + slab_faces(g, x - 1, h).len());
        assert(faces_before(g, x - 1).len() == (x - 1) * (2 * d + 2 * h) + h * d * below);
        assert(slab_faces(g, x - 1, h).len() == h * (d * ex + 2) + d * 2);
        assert((x - 1) * (2 * d + 2 * h) + h * d * below + h * (d * ex + 2) + d * 2 == x * (2 * d
            + 2 * h) + h * d * (below + ex)) by (nonlinear_arith);
    } else {
        assert(ends_below(x, g.width as int) == 0);
        assert(faces_before(g, x).len() == 0);
    }
}

/// A fully occupied `W × H × D` grid shows exactly the faces of its outer box:
/// `2 (W H + H D + W D)` unit quads, twice as many triangles.
pub proof fn lemma_solid_box_face_count(g: GridView)
    requires
        g.wf(),
        is_solid(g),
    ensures
        surface_faces(g).len() == 2 * (g.width * g.height + g.height * g.depth + g.width
            * g.depth),
        2 * surface_faces(g).len() == 4 * (g.width * g.height + g.height * g.depth + g.width
            * g.depth),
{
    lemma_solid_count_before(g, g.width as int);
    let (w, h, d) = (g.width as int, g.height as int, g.depth as int);
    assert(w * (2 * d + 2 * h) + h * d * 2 == 2 * (w * h + h * d + w * d)) by (nonlinear_arith);
}

} // verus!
