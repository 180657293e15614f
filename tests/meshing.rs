use fish::geometry::{corner_offset, face_normal, Direction, Vec3i};
use fish::grid::{GridError, VoxelGrid, MAX_CELLS};
use fish::mesher::{add_quad, generate_mesh, Face, RawSurface};
use fish::shading::{build_mesh, compute_flat_normals, duplicate_vertices, flat_shade};

fn solid(w: usize, h: usize, d: usize) -> VoxelGrid {
    VoxelGrid::new(w, h, d, (0, 0, 0), vec![true; w * h * d]).unwrap()
}

fn offset(h: usize, d: usize, x: usize, y: usize, z: usize) -> usize {
    (x * h + y) * d + z
}

fn outward(dir: Direction) -> (i64, i64, i64) {
    match dir {
        Direction::PosX => (1, 0, 0),
        Direction::NegX => (-1, 0, 0),
        Direction::PosY => (0, 1, 0),
        Direction::NegY => (0, -1, 0),
        Direction::PosZ => (0, 0, 1),
        Direction::NegZ => (0, 0, -1),
    }
}

fn v(x: i64, y: i64, z: i64) -> Vec3i {
    Vec3i { x, y, z }
}

#[test]
fn solid_three_cube_has_54_quads() {
    let grid = solid(3, 3, 3);
    let raw = generate_mesh(&grid);
    assert_eq!(raw.faces.len(), 54);
    assert_eq!(raw.indices.len() / 3, 108);
    let mesh = build_mesh(&grid);
    assert_eq!(mesh.positions.len() / 3, 108);
}

#[test]
fn single_cell_has_six_quads() {
    let grid = solid(1, 1, 1);
    let raw = generate_mesh(&grid);
    assert_eq!(raw.faces.len(), 6);
    assert_eq!(raw.indices.len() / 3, 12);
    assert_eq!(raw.positions.len(), 24);
}

#[test]
fn two_cells_along_x_have_ten_quads() {
    let grid = solid(2, 1, 1);
    let raw = generate_mesh(&grid);
    assert_eq!(raw.faces.len(), 10);
    assert!(!raw.faces.iter().any(|f| f.x == 0 && f.dir == Direction::PosX));
    assert!(!raw.faces.iter().any(|f| f.x == 1 && f.dir == Direction::NegX));
}

#[test]
fn solid_box_shows_outer_faces_only() {
    let grid = solid(2, 3, 4);
    let raw = generate_mesh(&grid);
    assert_eq!(raw.faces.len(), 2 * (2 * 3 + 3 * 4 + 2 * 4));
    assert_eq!(raw.indices.len() / 3, 4 * (2 * 3 + 3 * 4 + 2 * 4));
}

#[test]
fn interior_cell_gets_no_face() {
    let grid = solid(3, 3, 3);
    let raw = generate_mesh(&grid);
    assert!(!raw.faces.iter().any(|f| f.x == 1 && f.y == 1 && f.z == 1));
}

#[test]
fn hollow_cube_shows_inner_faces() {
    let mut cells = vec![true; 27];
    cells[offset(3, 3, 1, 1, 1)] = false;
    let grid = VoxelGrid::new(3, 3, 3, (0, 0, 0), cells).unwrap();
    let raw = generate_mesh(&grid);
    assert_eq!(raw.faces.len(), 60);
}

#[test]
fn every_face_is_on_the_boundary() {
    let (w, h, d) = (4usize, 3usize, 5usize);
    let cells: Vec<bool> = (0..w * h * d).map(|i| (i * 7 + i / 3) % 5 < 2).collect();
    let grid = VoxelGrid::new(w, h, d, (0, 0, 0), cells).unwrap();
    let raw = generate_mesh(&grid);
    let mut expected = 0usize;
    for x in 0..w as i64 {
        for y in 0..h as i64 {
            for z in 0..d as i64 {
                if !grid.is_occupied(x, y, z) {
                    continue;
                }
                for dir in [
                    Direction::PosX,
                    Direction::NegX,
                    Direction::PosY,
                    Direction::NegY,
                    Direction::PosZ,
                    Direction::NegZ,
                ] {
                    let o = outward(dir);
                    if !grid.is_occupied(x + o.0, y + o.1, z + o.2) {
                        expected += 1;
                    }
                }
            }
        }
    }
    assert_eq!(raw.faces.len(), expected);
    for (i, f) in raw.faces.iter().enumerate() {
        let (x, y, z) = (f.x as i64, f.y as i64, f.z as i64);
        let o = outward(f.dir);
        assert!(grid.is_occupied(x, y, z));
        assert!(!grid.is_occupied(x + o.0, y + o.1, z + o.2));
        for g in &raw.faces[i + 1..] {
            assert_ne!(f, g);
        }
    }
}

#[test]
fn empty_grid_has_no_faces() {
    let grid = VoxelGrid::new(2, 2, 2, (0, 0, 0), vec![false; 8]).unwrap();
    let mesh = build_mesh(&grid);
    assert!(mesh.positions.is_empty());
    assert!(mesh.normals.is_empty());
    assert!(mesh.indices.is_empty());
}

#[test]
fn meshing_twice_gives_identical_buffers() {
    let cells: Vec<bool> = (0..60).map(|i| i % 3 != 0).collect();
    let grid = VoxelGrid::new(3, 4, 5, (2, -1, 7), cells.clone()).unwrap();
    let again = VoxelGrid::new(3, 4, 5, (2, -1, 7), cells).unwrap();
    let a = build_mesh(&grid);
    let b = build_mesh(&again);
    assert_eq!(a.positions, b.positions);
    assert_eq!(a.normals, b.normals);
    assert_eq!(a.indices, b.indices);
}

#[test]
fn normals_point_out_of_their_face() {
    let cells: Vec<bool> = (0..27).map(|i| i % 2 == 0).collect();
    let grid = VoxelGrid::new(3, 3, 3, (-4, 0, 9), cells).unwrap();
    let raw = generate_mesh(&grid);
    let mesh = build_mesh(&grid);
    assert_eq!(mesh.normals.len(), 6 * raw.faces.len());
    for (k, n) in mesh.normals.iter().enumerate() {
        let o = outward(raw.faces[k / 6].dir);
        assert!(n.x * o.0 + n.y * o.1 + n.z * o.2 > 0);
        assert_eq!(*n, v(4 * o.0, 4 * o.1, 4 * o.2));
    }
}

#[test]
fn shading_gives_each_triangle_its_own_vertices() {
    let grid = solid(2, 2, 1);
    let raw = generate_mesh(&grid);
    let mesh = build_mesh(&grid);
    assert_eq!(mesh.positions.len(), 3 * (raw.indices.len() / 3));
    let numbers: Vec<u32> = (0..mesh.positions.len() as u32).collect();
    assert_eq!(mesh.indices, numbers);
    for (k, p) in mesh.positions.iter().enumerate() {
        assert_eq!(*p, raw.positions[raw.indices[k] as usize]);
    }
}

#[test]
fn quad_corners_follow_the_cell_and_origin() {
    let grid = VoxelGrid::new(1, 1, 1, (1, 2, 3), vec![true]).unwrap();
    let raw = generate_mesh(&grid);
    assert_eq!(raw.faces[0], Face { x: 0, y: 0, z: 0, dir: Direction::PosX });
    assert_eq!(raw.positions[0..4], [v(3, 5, 5), v(3, 5, 7), v(3, 3, 7), v(3, 3, 5)]);
    assert_eq!(raw.indices[0..6], [0, 1, 2, 0, 2, 3]);
    assert_eq!(raw.indices[6..12], [4, 5, 6, 4, 6, 7]);
    let dirs: Vec<Direction> = raw.faces.iter().map(|f| f.dir).collect();
    assert_eq!(
        dirs,
        vec![
            Direction::PosX,
            Direction::NegX,
            Direction::PosY,
            Direction::NegY,
            Direction::PosZ,
            Direction::NegZ
        ]
    );
}

#[test]
fn add_quad_appends_one_quad() {
    let mut surface = RawSurface { faces: vec![], positions: vec![], indices: vec![] };
    let face = Face { x: 0, y: 0, z: 0, dir: Direction::PosY };
    add_quad(&mut surface, (0, 0, 0), face);
    add_quad(&mut surface, (0, 0, 0), face);
    assert_eq!(surface.faces, vec![face, face]);
    assert_eq!(surface.positions[0..4], [v(-1, 1, -1), v(-1, 1, 1), v(1, 1, 1), v(1, 1, -1)]);
    assert_eq!(surface.indices, vec![0, 1, 2, 0, 2, 3, 4, 5, 6, 4, 6, 7]);
}

#[test]
fn grid_rejects_zero_dimension() {
    assert_eq!(VoxelGrid::new(0, 2, 2, (0, 0, 0), vec![]).err(), Some(GridError::ZeroDimension));
    assert_eq!(VoxelGrid::new(2, 2, 0, (0, 0, 0), vec![]).err(), Some(GridError::ZeroDimension));
}

#[test]
fn grid_rejects_too_many_cells() {
    let r = VoxelGrid::new(MAX_CELLS, 2, 1, (0, 0, 0), vec![]);
    assert_eq!(r.err(), Some(GridError::TooLarge));
    let r = VoxelGrid::new(usize::MAX, usize::MAX, usize::MAX, (0, 0, 0), vec![]);
    assert_eq!(r.err(), Some(GridError::TooLarge));
}

#[test]
fn grid_rejects_far_origin() {
    let r = VoxelGrid::new(1, 1, 1, (0, 268_435_457, 0), vec![true]);
    assert_eq!(r.err(), Some(GridError::OriginOutOfRange));
    let r = VoxelGrid::new(1, 1, 1, (0, 0, -268_435_456), vec![true]);
    assert!(r.is_ok());
}

#[test]
fn grid_rejects_wrong_cell_count() {
    let r = VoxelGrid::new(2, 2, 2, (0, 0, 0), vec![true; 7]);
    assert_eq!(r.err(), Some(GridError::CellCountMismatch));
}

#[test]
fn grid_reads_cells_in_storage_order() {
    let mut cells = vec![false; 24];
    cells[offset(3, 4, 1, 2, 3)] = true;
    let grid = VoxelGrid::new(2, 3, 4, (0, 0, 0), cells).unwrap();
    assert!(grid.is_occupied(1, 2, 3));
    assert!(!grid.is_occupied(1, 2, 2));
    assert!(!grid.is_occupied(0, 2, 3));
    assert_eq!((grid.width(), grid.height(), grid.depth()), (2, 3, 4));
}

#[test]
fn outside_coordinates_read_empty() {
    let grid = solid(2, 2, 2);
    assert!(grid.is_occupied(0, 0, 0));
    assert!(!grid.is_occupied(-1, 0, 0));
    assert!(!grid.is_occupied(0, 2, 0));
    assert!(!grid.is_occupied(0, 0, 5));
    assert!(!grid.is_occupied(i64::MIN, i64::MAX, 0));
}

#[test]
fn face_normal_is_the_cross_product() {
    assert_eq!(face_normal(v(0, 0, 0), v(2, 0, 0), v(0, 2, 0)), v(0, 0, 4));
    assert_eq!(face_normal(v(1, 1, 1), v(1, 3, 1), v(1, 1, 4)), v(6, 0, 0));
    assert_eq!(face_normal(v(0, 0, 0), v(1, 2, 3), v(-2, 1, 5)), v(7, -11, 5));
}

#[test]
fn degenerate_triangle_gets_default_normal() {
    assert_eq!(face_normal(v(0, 0, 0), v(1, 1, 1), v(2, 2, 2)), v(0, 1, 0));
    assert_eq!(face_normal(v(5, 5, 5), v(5, 5, 5), v(5, 5, 5)), v(0, 1, 0));
}

#[test]
fn corner_offsets_of_the_top_face() {
    let top: Vec<Vec3i> = (0..4).map(|k| corner_offset(Direction::PosY, k)).collect();
    assert_eq!(top, vec![v(-1, 1, -1), v(-1, 1, 1), v(1, 1, 1), v(1, 1, -1)]);
    assert_eq!(corner_offset(Direction::NegZ, 2), v(1, -1, -1));
}

#[test]
fn duplicate_vertices_copies_each_index() {
    let positions = vec![v(0, 0, 0), v(2, 0, 0), v(2, 2, 0), v(0, 2, 0)];
    let out = duplicate_vertices(&positions, &vec![0, 1, 2, 0, 2, 3, 1]);
    assert_eq!(out, vec![v(0, 0, 0), v(2, 0, 0), v(2, 2, 0), v(0, 0, 0), v(2, 2, 0), v(0, 2, 0)]);
}

#[test]
fn flat_normals_repeat_per_triangle() {
    let positions = vec![v(0, 0, 0), v(2, 0, 0), v(0, 2, 0), v(0, 0, 0), v(0, 2, 0), v(2, 0, 0)];
    let normals = compute_flat_normals(&positions);
    assert_eq!(normals, vec![v(0, 0, 4), v(0, 0, 4), v(0, 0, 4), v(0, 0, -4), v(0, 0, -4), v(0, 0, -4)]);
}

#[test]
fn flat_shade_numbers_vertices() {
    let positions = vec![v(0, 0, 0), v(2, 0, 0), v(2, 2, 0), v(0, 2, 0)];
    let mesh = flat_shade(&positions, &vec![0, 1, 2, 0, 2, 3]);
    assert_eq!(mesh.indices, vec![0, 1, 2, 3, 4, 5]);
    assert_eq!(mesh.positions[3..6], [v(0, 0, 0), v(2, 2, 0), v(0, 2, 0)]);
    assert_eq!(mesh.normals, vec![v(0, 0, 4); 6]);
}
