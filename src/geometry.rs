use vstd::prelude::*;

verus! {

/// Every coordinate of a mesh point lies strictly between `-POSITION_BOUND`
/// and `POSITION_BOUND` (in half cell widths).
pub const POSITION_BOUND: i64 = 1_073_741_824;

/// A point or a vector with integer coordinates, counted in half cell widths:
/// the value 2 is one cell width.
#[derive(Clone, Copy, Debug, PartialEq, Eq, Structural)]
pub struct Vec3i {
    pub x: i64,
    pub y: i64,
    pub z: i64,
}

/// One of the six axis-aligned directions in which a cell has a neighbour.
#[derive(Clone, Copy, Debug, PartialEq, Eq, Structural)]
pub enum Direction {
    PosX,
    NegX,
    PosY,
    NegY,
    PosZ,
    NegZ,
}

/// A vector of mathematical integers.
pub type IntVec = (int, int, int);

pub open spec fn ints(v: Vec3i) -> IntVec {
    (v.x as int, v.y as int, v.z as int)
}

impl Vec3i {
    pub open spec fn in_bound(self) -> bool {
        &&& -POSITION_BOUND < self.x < POSITION_BOUND
        &&& -POSITION_BOUND < self.y < POSITION_BOUND
        &&& -POSITION_BOUND < self.z < POSITION_BOUND
    }
}

pub open spec fn vsub(a: IntVec, b: IntVec) -> IntVec {
    (a.0 - b.0, a.1 - b.1, a.2 - b.2)
}

pub open spec fn vadd(a: IntVec, b: IntVec) -> IntVec {
    (a.0 + b.0, a.1 + b.1, a.2 + b.2)
}

pub open spec fn scale(k: int, a: IntVec) -> IntVec {
    (k * a.0, k * a.1, k * a.2)
}

pub open spec fn cross(u: IntVec, v: IntVec) -> IntVec {
    (u.1 * v.2 - u.2 * v.1, u.2 * v.0 - u.0 * v.2, u.0 * v.1 - u.1 * v.0)
}

pub open spec fn dot(u: IntVec, v: IntVec) -> int {
    u.0 * v.0 + u.1 * v.1 + u.2 * v.2
}

/// The normal given to a triangle whose cross product vanishes.
pub open spec fn default_normal() -> IntVec {
    (0, 1, 0)
}

/// The flat normal of triangle `(a, b, c)`: the cross product of `b - a` and
/// `c - a`, or the default normal where that product is zero. It is not scaled
/// to unit length; its direction is the normal's.
pub open spec fn flat_normal(a: IntVec, b: IntVec, c: IntVec) -> IntVec {
    let n = cross(vsub(b, a), vsub(c, a));
    if n == (0int, 0int, 0int) {
        default_normal()
    } else {
        n
    }
}

/// The unit vector pointing from a cell to its neighbour in direction `d`.
pub open spec fn outward(d: Direction) -> IntVec {
    match d {
        Direction::PosX => (1, 0, 0),
        Direction::NegX => (-1, 0, 0),
        Direction::PosY => (0, 1, 0),
        Direction::NegY => (0, -1, 0),
        Direction::PosZ => (0, 0, 1),
        Direction::NegZ => (0, 0, -1),
    }
}

/// The eight corners of a unit cube around its centre, in half cell widths.
pub open spec fn cube_corner(i: int) -> IntVec {
    if i == 0 {
        (-1, 1, -1)
    } else if i == 1 {
        (-1, 1, 1)
    } else if i == 2 {
        (1, 1, 1)
    } else if i == 3 {
        (1, 1, -1)
    } else if i == 4 {
        (-1, -1, -1)
    } else if i == 5 {
        (-1, -1, 1)
    } else if i == 6 {
        (1, -1, 1)
    } else {
        (1, -1, -1)
    }
}

/// The `k`-th corner (of four) of the cube face that faces direction `d`, in
/// the winding order that makes the face's triangles face outward.
pub open spec fn face_corner_id(d: Direction, k: int) -> int {
    let ids: (int, int, int, int) = match d {
        Direction::PosX => (3, 2, 6, 7),
        Direction::NegX => (1, 0, 4, 5),
        Direction::PosY => (0, 1, 2, 3),
        Direction::NegY => (7, 6, 5, 4),
        Direction::PosZ => (2, 1, 5, 6),
        Direction::NegZ => (0, 3, 7, 4),
    };
    if k == 0 {
        ids.0
    } else if k == 1 {
        ids.1
    } else if k == 2 {
        ids.2
    } else {
        ids.3
    }
}

/// Offset of the `k`-th corner of face `d` from the cell centre.
pub open spec fn face_corner_offset(d: Direction, k: int) -> IntVec {
    cube_corner(face_corner_id(d, k))
}

/// Offset from the cell centre of the `k`-th corner of face `d`.
pub fn corner_offset(d: Direction, k: usize) -> (r: Vec3i)
    requires
        k < 4,
    ensures
        ints(r) == face_corner_offset(d, k as int),
{
    let ids: (usize, usize, usize, usize) = match d {
        Direction::PosX => (3, 2, 6, 7),
        Direction::NegX => (1, 0, 4, 5),
        Direction::PosY => (0, 1, 2, 3),
        Direction::NegY => (7, 6, 5, 4),
        Direction::PosZ => (2, 1, 5, 6),
        Direction::NegZ => (0, 3, 7, 4),
    };
    let id = if k == 0 {
        ids.0
    } else if k == 1 {
        ids.1
    } else if k == 2 {
        ids.2
    } else {
        ids.3
    };
    let x: i64 = if id == 2 || id == 3 || id == 6 || id == 7 { 1 } else { -1 };
    let y: i64 = if id < 4 { 1 } else { -1 };
    let z: i64 = if id == 1 || id == 2 || id == 5 || id == 6 { 1 } else { -1 };
    Vec3i { x, y, z }
}

proof fn lemma_product_bound(a: int, b: int)
    requires
        -2_147_483_648 < a < 2_147_483_648,
        -2_147_483_648 < b < 2_147_483_648,
    ensures
        -4_611_686_018_427_387_904 < a * b < 4_611_686_018_427_387_904,
{
    assert(-4_611_686_018_427_387_904 < a * b < 4_611_686_018_427_387_904) by (nonlinear_arith)
        requires
            -2_147_483_648 < a < 2_147_483_648,
            -2_147_483_648 < b < 2_147_483_648,
    ;
}

/// The flat normal of triangle `(a, b, c)` (see `flat_normal`).
pub fn face_normal(a: Vec3i, b: Vec3i, c: Vec3i) -> (r: Vec3i)
    requires
        a.in_bound(),
        b.in_bound(),
        c.in_bound(),
    ensures
        ints(r) == flat_normal(ints(a), ints(b), ints(c)),
{
    let ux = b.x - a.x;
    let uy = b.y - a.y;
    let uz = b.z - a.z;
    let vx = c.x - a.x;
    let vy = c.y - a.y;
    let vz = c.z - a.z;
    proof {
        lemma_product_bound(uy as int, vz as int);
        lemma_product_bound(uz as int, vy as int);
        lemma_product_bound(uz as int, vx as int);
        lemma_product_bound(ux as int, vz as int);
        lemma_product_bound(ux as int, vy as int);
        lemma_product_bound(uy as int, vx as int);
    }
    let nx = uy * vz - uz * vy;
    let ny = uz * vx - ux * vz;
    let nz = ux * vy - uy * vx;
    if nx == 0 && ny == 0 && nz == 0 {
        Vec3i { x: 0, y: 1, z: 0 }
    } else {
        Vec3i { x: nx, y: ny, z: nz }
    }
}

} // verus!
