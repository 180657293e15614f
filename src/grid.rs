use vstd::prelude::*;

verus! {

/// The largest number of cells a grid may hold.
pub const MAX_CELLS: usize = 100_000_000;

/// The largest magnitude of a coordinate of a grid's origin offset, in cells.
pub const ORIGIN_LIMIT: i64 = 268_435_456;

/// A dense box of `width × height × depth` unit cells, each occupied or empty,
/// whose minimum cell sits at `origin` in world space. Cell `(x, y, z)` is
/// stored at offset `((x * height) + y) * depth + z`.
pub struct VoxelGrid {
    width: usize,
    height: usize,
    depth: usize,
    origin: (i64, i64, i64),
    cells: Vec<bool>,
}

/// Why a grid could not be built.
#[derive(Clone, Copy, Debug, PartialEq, Eq, Structural)]
pub enum GridError {
    /// A dimension is zero.
    ZeroDimension,
    /// The grid would hold more than `MAX_CELLS` cells.
    TooLarge,
    /// A coordinate of the origin offset exceeds `ORIGIN_LIMIT` in magnitude.
    OriginOutOfRange,
    /// The occupancy list does not hold one value per cell.
    CellCountMismatch,
}

/// The mathematical content of a grid.
pub struct GridView {
    pub width: nat,
    pub height: nat,
    pub depth: nat,
    pub origin: (int, int, int),
    pub cells: Seq<bool>,
}

pub open spec fn cell_offset(height: nat, depth: nat, x: int, y: int, z: int) -> int {
    (x * height + y) * depth + z
}

impl GridView {
    pub open spec fn volume(self) -> int {
        (self.width * self.height * self.depth) as int
    }

    pub open spec fn wf(self) -> bool {
        &&& self.width > 0
        &&& self.height > 0
        &&& self.depth > 0
        &&& self.volume() <= MAX_CELLS
        &&& self.cells.len() == self.volume()
        &&& -ORIGIN_LIMIT <= self.origin.0 <= ORIGIN_LIMIT
        &&& -ORIGIN_LIMIT <= self.origin.1 <= ORIGIN_LIMIT
        &&& -ORIGIN_LIMIT <= self.origin.2 <= ORIGIN_LIMIT
    }

    pub open spec fn in_bounds(self, x: int, y: int, z: int) -> bool {
        0 <= x < self.width && 0 <= y < self.height && 0 <= z < self.depth
    }

    /// Whether `(x, y, z)` is an occupied cell; every coordinate outside the
    /// grid counts as empty.
    pub open spec fn occupied(self, x: int, y: int, z: int) -> bool {
        self.in_bounds(x, y, z) && self.cells[cell_offset(self.height, self.depth, x, y, z)]
    }
}

impl View for VoxelGrid {
    type V = GridView;

    closed spec fn view(&self) -> GridView {
        GridView {
            width: self.width as nat,
            height: self.height as nat,
            depth: self.depth as nat,
            origin: (self.origin.0 as int, self.origin.1 as int, self.origin.2 as int),
            cells: self.cells@,
        }
    }
}

/// A cell inside the grid has an offset inside its storage.
pub proof fn lemma_offset_in_range(w: nat, h: nat, d: nat, x: int, y: int, z: int)
    requires
        0 <= x < w,
        0 <= y < h,
        0 <= z < d,
    ensures
        0 <= cell_offset(h, d, x, y, z) < w * h * d,
        cell_offset(h, d, x, y, z) + 1 <= w * h * d,
        0 <= x * h <= x * h + y <= cell_offset(h, d, x, y, z),
        x <= cell_offset(h, d, x, y, z),
        y <= cell_offset(h, d, x, y, z),
        z <= cell_offset(h, d, x, y, z),
{
    assert(0 <= x * h + y < w * h) by (nonlinear_arith)
        requires
            0 <= x < w,
            0 <= y < h,
    ;
    let r = x * h + y;
    assert(0 <= r * d + z < w * h * d && r <= r * d) by (nonlinear_arith)
        requires
            0 <= r < w * h,
            0 <= z < d,
    ;
    assert(0 <= x <= x * h) by (nonlinear_arith)
        requires
            0 <= x,
            0 <= y < h,
    ;
}

impl VoxelGrid {
    pub open spec fn wf(&self) -> bool {
        self@.wf()
    }

    /// Builds a grid from one occupancy value per cell, listed in storage order
    /// (`cell_offset`). The first failing check, in the order of the error
    /// variants, decides the error.
    pub fn new(width: usize, height: usize, depth: usize, origin: (i64, i64, i64), cells: Vec<bool>)
        -> (r: Result<VoxelGrid, GridError>)
        ensures
            (width == 0 || height == 0 || depth == 0) ==> r == Err::<VoxelGrid, GridError>(
                GridError::ZeroDimension,
            ),
            (width > 0 && height > 0 && depth > 0 && width * height * depth > MAX_CELLS) ==> r
                == Err::<VoxelGrid, GridError>(GridError::TooLarge),
            (width > 0 && height > 0 && depth > 0 && width * height * depth <= MAX_CELLS && !(
            -ORIGIN_LIMIT <= origin.0 <= ORIGIN_LIMIT && -ORIGIN_LIMIT <= origin.1 <= ORIGIN_LIMIT
                && -ORIGIN_LIMIT <= origin.2 <= ORIGIN_LIMIT)) ==> r == Err::<VoxelGrid, GridError>(
                GridError::OriginOutOfRange,
            ),
            r == Err::<VoxelGrid, GridError>(GridError::CellCountMismatch) <==> (width > 0
                && height > 0 && depth > 0 && width * height * depth <= MAX_CELLS && -ORIGIN_LIMIT
                <= origin.0 <= ORIGIN_LIMIT && -ORIGIN_LIMIT <= origin.1 <= ORIGIN_LIMIT
                && -ORIGIN_LIMIT <= origin.2 <= ORIGIN_LIMIT && cells@.len() != width * height
                * depth),
            r is Ok <==> (width > 0 && height > 0 && depth > 0 && width * height * depth
                <= MAX_CELLS && -ORIGIN_LIMIT <= origin.0 <= ORIGIN_LIMIT && -ORIGIN_LIMIT
                <= origin.1 <= ORIGIN_LIMIT && -ORIGIN_LIMIT <= origin.2 <= ORIGIN_LIMIT
                && cells@.len() == width * height * depth),
            r is Ok ==> r->Ok_0.wf() && r->Ok_0@ == (GridView {
                width: width as nat,
                height: height as nat,
                depth: depth as nat,
                origin: (origin.0 as int, origin.1 as int, origin.2 as int),
                cells: cells@,
            }),
    {
        if width == 0 || height == 0 || depth == 0 {
            return Err(GridError::ZeroDimension);
        }
        proof {
            assert(width * height < 340_282_366_920_938_463_463_374_607_431_768_211_456) by (nonlinear_arith)
                requires
                    width < 18_446_744_073_709_551_616,
                    height < 18_446_744_073_709_551_616,
            ;
        }
        let wh: u128 = (width as u128) * (height as u128);
        proof {
            assert(wh * (depth as int) >= wh) by (nonlinear_arith)
                requires
                    depth >= 1,
                    wh >= 0,
            ;
        }
        if wh > MAX_CELLS as u128 {
            return Err(GridError::TooLarge);
        }
        proof {
            assert(wh * (depth as int) <= MAX_CELLS * 18_446_744_073_709_551_616) by (nonlinear_arith)
                requires
                    wh <= MAX_CELLS,
                    depth < 18_446_744_073_709_551_616,
            ;
        }
        let whd: u128 = wh * (depth as u128);
        if whd > MAX_CELLS as u128 {
            return Err(GridError::TooLarge);
        }
        if !(-ORIGIN_LIMIT <= origin.0 && origin.0 <= ORIGIN_LIMIT && -ORIGIN_LIMIT <= origin.1
            && origin.1 <= ORIGIN_LIMIT && -ORIGIN_LIMIT <= origin.2 && origin.2 <= ORIGIN_LIMIT) {
            return Err(GridError::OriginOutOfRange);
        }
        if cells.len() != whd as usize {
            return Err(GridError::CellCountMismatch);
        }
        Ok(VoxelGrid { width, height, depth, origin, cells })
    }

    pub fn width(&self) -> (r: usize)
        ensures
            r == self@.width,
    {
        self.width
    }

    pub fn height(&self) -> (r: usize)
        ensures
            r == self@.height,
    {
        self.height
    }

    pub fn depth(&self) -> (r: usize)
        ensures
            r == self@.depth,
    {
        self.depth
    }

    pub fn origin(&self) -> (r: (i64, i64, i64))
        ensures
            (r.0 as int, r.1 as int, r.2 as int) == self@.origin,
    {
        self.origin
    }

    /// Whether cell `(x, y, z)` is occupied. Any coordinate outside the grid
    /// reads as empty, so a neighbour query never leaves the storage.
    pub fn is_occupied(&self, x: i64, y: i64, z: i64) -> (r: bool)
        requires
            self.wf(),
        ensures
            r == self@.occupied(x as int, y as int, z as int),
    {
        if x < 0 || y < 0 || z < 0 {
            return false;
        }
        let (ux, uy, uz) = (x as u64, y as u64, z as u64);
        if ux >= self.width as u64 || uy >= self.height as u64 || uz >= self.depth as u64 {
            return false;
        }
        let (ux, uy, uz) = (ux as usize, uy as usize, uz as usize);
        proof {
            lemma_offset_in_range(self@.width, self@.height, self@.depth, ux as int, uy as int, uz as int);
        }
        self.cells[(ux * self.height + uy) * self.depth + uz]
    }
}

} // verus!
