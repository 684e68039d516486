use voxel_chunks::color::Color;
use voxel_chunks::voxel_tools::chunks::Chunks;
use voxel_chunks::voxel_tools::direction::Direction;
use voxel_chunks::voxel_tools::direction::Normal;
use voxel_chunks::voxel_tools::mesh_builder::build_chunk_mesh;
use voxel_chunks::voxel_tools::mesh_builder::build_chunk_quads;
use voxel_chunks::voxel_tools::mesh_builder::process_voxel;
use voxel_chunks::voxel_tools::mesh_builder::triangulate;
use voxel_chunks::voxel_tools::position::ChunkPosition;
use voxel_chunks::voxel_tools::position::WorldPosition;
use voxel_chunks::voxel_tools::quad::Quad;
use voxel_chunks::voxel_tools::quad::QuadCorner;
use voxel_chunks::voxel_tools::quad::GREEN_HIGH;
use voxel_chunks::voxel_tools::quad::GREEN_LOW;
use voxel_chunks::voxel_tools::quad::TINT_HIGH;
use voxel_chunks::voxel_tools::quad::TINT_LOW;
use voxel_chunks::voxel_tools::voxel::Voxel;

fn pos(x: i32, y: i32, z: i32) -> ChunkPosition {
    ChunkPosition::new(x, y, z)
}

fn corner(x: i64, y: i64, z: i64) -> QuadCorner {
    QuadCorner { x, y, z }
}

/// A manager in which the block of chunks from `-1` to `1` is resident.
fn world_of<F: Fn(i64, i64, i64) -> bool>(terrain: F) -> Chunks {
    let mut chunks = Chunks::new();
    for x in -1..=1 {
        for y in -1..=1 {
            for z in -1..=1 {
                chunks.build_chunk_data(pos(x, y, z), &terrain);
            }
        }
    }
    chunks
}

fn quads_of(chunks: &Chunks, p: ChunkPosition) -> Vec<Quad> {
    build_chunk_quads(chunks, &p, &Chunks::chunk_to_world(p))
}

/// The voxel a quad belongs to, from its corners: the face lies half a voxel
/// below the voxel's centre along the axis of the quad.
fn owner(quad: &Quad) -> (i64, i64, i64) {
    let min_x = quad.corners.iter().map(|c| c.x).min().unwrap();
    let min_y = quad.corners.iter().map(|c| c.y).min().unwrap();
    let min_z = quad.corners.iter().map(|c| c.z).min().unwrap();
    ((min_x + 1) / 2, (min_y + 1) / 2, (min_z + 1) / 2)
}

#[test]
fn quad_corners_of_each_direction() {
    let at = WorldPosition { x: 10, y: 20, z: 30 };
    let c = Color([1, 2, 3, 4]);
    assert_eq!(
        Quad::with_color(Direction::Left, at, c).corners,
        [corner(19, 39, 59), corner(19, 39, 61), corner(19, 41, 61), corner(19, 41, 59)]
    );
    assert_eq!(
        Quad::with_color(Direction::Right, at, c).corners,
        [corner(19, 41, 59), corner(19, 41, 61), corner(19, 39, 61), corner(19, 39, 59)]
    );
    assert_eq!(
        Quad::with_color(Direction::Down, at, c).corners,
        [corner(19, 39, 59), corner(21, 39, 59), corner(21, 39, 61), corner(19, 39, 61)]
    );
    assert_eq!(
        Quad::with_color(Direction::Up, at, c).corners,
        [corner(19, 39, 61), corner(21, 39, 61), corner(21, 39, 59), corner(19, 39, 59)]
    );
    assert_eq!(
        Quad::with_color(Direction::Back, at, c).corners,
        [corner(19, 39, 59), corner(19, 41, 59), corner(21, 41, 59), corner(21, 39, 59)]
    );
    assert_eq!(
        Quad::with_color(Direction::Forward, at, c).corners,
        [corner(21, 39, 59), corner(21, 41, 59), corner(19, 41, 59), corner(19, 39, 59)]
    );
}

#[test]
fn quad_keeps_its_direction_and_color() {
    let q = Quad::with_color(Direction::Up, WorldPosition { x: 0, y: 0, z: 0 }, Color([9, 8, 7, 6]));
    assert_eq!(q.direction, Direction::Up);
    assert_eq!(q.color, Color([9, 8, 7, 6]));
    assert_eq!(q.corners[0], corner(-1, -1, 1));
}

#[test]
fn opposite_faces_share_their_corners() {
    let at = WorldPosition { x: -3, y: 4, z: 5 };
    let c = Color([0, 0, 0, 0]);
    for (a, b) in [
        (Direction::Left, Direction::Right),
        (Direction::Down, Direction::Up),
        (Direction::Back, Direction::Forward),
    ] {
        let mut first = Quad::with_color(a, at, c).corners.to_vec();
        let mut second = Quad::with_color(b, at, c).corners.to_vec();
        first.sort_by_key(|k| (k.x, k.y, k.z));
        second.sort_by_key(|k| (k.x, k.y, k.z));
        assert_eq!(first, second);
    }
}

#[test]
fn random_face_color_is_a_tinted_green() {
    let at = WorldPosition { x: 1, y: 2, z: 3 };
    let mut greens = Vec::new();
    for _ in 0..200 {
        let q = Quad::from_direction(Direction::Back, at);
        assert_eq!(q.direction, Direction::Back);
        assert_eq!(q.corners, Quad::with_color(Direction::Back, at, q.color).corners);
        let [r, g, b, a] = q.color.0;
        assert!(TINT_LOW <= r && r < TINT_HIGH);
        assert!(GREEN_LOW <= g && g < GREEN_HIGH);
        assert!(TINT_LOW <= b && b < TINT_HIGH);
        assert_eq!(a, 255);
        greens.push(g);
    }
    assert!(greens.iter().any(|g| *g != greens[0]));
}

#[test]
fn solid_voxel_shows_faces_toward_empty_neighbors() {
    let at = WorldPosition { x: 0, y: 0, z: 0 };
    let (solid, empty) = (Voxel::new_solid(), Voxel::new_empty());
    let mut quads = Vec::new();
    process_voxel(&solid, at, &empty, &empty, &empty, &mut quads);
    let directions: Vec<Direction> = quads.iter().map(|q| q.direction).collect();
    assert_eq!(directions, vec![Direction::Left, Direction::Down, Direction::Back]);

    let mut quads = Vec::new();
    process_voxel(&solid, at, &solid, &empty, &solid, &mut quads);
    let directions: Vec<Direction> = quads.iter().map(|q| q.direction).collect();
    assert_eq!(directions, vec![Direction::Down]);

    let mut quads = Vec::new();
    process_voxel(&solid, at, &solid, &solid, &solid, &mut quads);
    assert!(quads.is_empty());
}

#[test]
fn empty_voxel_shows_the_faces_of_solid_neighbors() {
    let at = WorldPosition { x: 0, y: 0, z: 0 };
    let (solid, empty) = (Voxel::new_solid(), Voxel::new_empty());
    let mut quads = Vec::new();
    process_voxel(&empty, at, &solid, &solid, &solid, &mut quads);
    let directions: Vec<Direction> = quads.iter().map(|q| q.direction).collect();
    assert_eq!(directions, vec![Direction::Right, Direction::Up, Direction::Forward]);

    let mut quads = Vec::new();
    process_voxel(&empty, at, &empty, &empty, &solid, &mut quads);
    let directions: Vec<Direction> = quads.iter().map(|q| q.direction).collect();
    assert_eq!(directions, vec![Direction::Forward]);

    let mut quads = Vec::new();
    process_voxel(&empty, at, &empty, &empty, &empty, &mut quads);
    assert!(quads.is_empty());
}

#[test]
fn process_voxel_appends_to_what_is_there() {
    let at = WorldPosition { x: 4, y: 5, z: 6 };
    let (solid, empty) = (Voxel::new_solid(), Voxel::new_empty());
    let mut quads = vec![Quad::with_color(Direction::Up, at, Color([1, 1, 1, 1]))];
    process_voxel(&solid, at, &empty, &solid, &solid, &mut quads);
    assert_eq!(quads.len(), 2);
    assert_eq!(quads[0].direction, Direction::Up);
    assert_eq!(quads[0].color, Color([1, 1, 1, 1]));
    assert_eq!(quads[1].direction, Direction::Left);
    assert_eq!(quads[1].corners[0], corner(7, 9, 11));
}

#[test]
fn triangulation_makes_two_triangles_a_quad() {
    let at = WorldPosition { x: 0, y: 0, z: 0 };
    let quads = vec![
        Quad::with_color(Direction::Left, at, Color([1, 2, 3, 255])),
        Quad::with_color(Direction::Up, WorldPosition { x: 1, y: 0, z: 0 }, Color([4, 5, 6, 255])),
    ];
    let geometry = triangulate(&quads);
    assert_eq!(geometry.indices, vec![0, 1, 2, 0, 2, 3, 4, 5, 6, 4, 6, 7]);
    assert_eq!(geometry.vertices.len(), 8);
    for (k, quad) in quads.iter().enumerate() {
        for j in 0..4 {
            let v = &geometry.vertices[4 * k + j];
            assert_eq!(v.position, quad.corners[j]);
            assert_eq!(v.normal, quad.direction.get_normal());
            assert_eq!(v.color_diffuse, quad.color);
        }
    }
    assert_eq!(geometry.vertices[0].normal, Normal { x: -1, y: 0, z: 0 });
    assert_eq!(geometry.vertices[7].normal, Normal { x: 0, y: 1, z: 0 });
}

#[test]
fn triangulation_of_nothing_is_empty() {
    let geometry = triangulate(&Vec::new());
    assert!(geometry.vertices.is_empty());
    assert!(geometry.indices.is_empty());
}

#[test]
fn single_empty_voxel_in_solid_surroundings() {
    // Everything is solid but the voxel at local (0, 0, 0) of chunk (0, 0, 0).
    let chunks = world_of(|x: i64, y: i64, z: i64| !(x == 0 && y == 0 && z == 0));
    let quads = quads_of(&chunks, pos(0, 0, 0));

    // The empty voxel stands in for its three solid neighbours on the
    // negative side: one quad on each of its three negative-side faces.
    let at_empty: Vec<&Quad> = quads.iter().filter(|q| owner(q) == (0, 0, 0)).collect();
    let directions: Vec<Direction> = at_empty.iter().map(|q| q.direction).collect();
    assert_eq!(directions, vec![Direction::Right, Direction::Up, Direction::Forward]);
    assert_eq!(
        at_empty[0].corners,
        [corner(-1, 1, -1), corner(-1, 1, 1), corner(-1, -1, 1), corner(-1, -1, -1)]
    );
    assert_eq!(
        at_empty[1].corners,
        [corner(-1, -1, 1), corner(1, -1, 1), corner(1, -1, -1), corner(-1, -1, -1)]
    );
    assert_eq!(
        at_empty[2].corners,
        [corner(1, -1, -1), corner(1, 1, -1), corner(-1, 1, -1), corner(-1, -1, -1)]
    );

    // Its three faces on the positive side belong to the solid voxels
    // beyond them, each of which looks back at the empty voxel.
    let all: Vec<((i64, i64, i64), Direction)> =
        quads.iter().map(|q| (owner(q), q.direction)).collect();
    assert_eq!(
        all,
        vec![
            ((0, 0, 0), Direction::Right),
            ((0, 0, 0), Direction::Up),
            ((0, 0, 0), Direction::Forward),
            ((0, 0, 1), Direction::Back),
            ((0, 1, 0), Direction::Down),
            ((1, 0, 0), Direction::Left),
        ]
    );

    // The neighbouring chunks, solid throughout, have no faces at all.
    for p in [pos(-1, 0, 0), pos(0, -1, 0), pos(0, 0, -1)] {
        assert!(chunks.get_chunk(&p).unwrap().voxels.iter().all(|v| v.is_solid()));
    }
    let geometry = build_chunk_mesh(&chunks, &pos(0, 0, 0), &Chunks::chunk_to_world(pos(0, 0, 0)));
    assert_eq!(geometry.vertices.len(), 24);
    assert_eq!(geometry.indices.len(), 36);
}

#[test]
fn single_solid_voxel_has_six_faces() {
    let chunks = world_of(|x: i64, y: i64, z: i64| x == 5 && y == 6 && z == 7);
    let quads = quads_of(&chunks, pos(0, 0, 0));
    let all: Vec<((i64, i64, i64), Direction)> =
        quads.iter().map(|q| (owner(q), q.direction)).collect();
    assert_eq!(
        all,
        vec![
            ((5, 6, 7), Direction::Left),
            ((5, 6, 7), Direction::Down),
            ((5, 6, 7), Direction::Back),
            ((5, 6, 8), Direction::Forward),
            ((5, 7, 7), Direction::Up),
            ((6, 6, 7), Direction::Right),
        ]
    );
}

#[test]
fn uniform_chunks_have_no_faces() {
    let solid = world_of(|_x: i64, _y: i64, _z: i64| true);
    assert!(quads_of(&solid, pos(0, 0, 0)).is_empty());
    let empty = world_of(|_x: i64, _y: i64, _z: i64| false);
    assert!(quads_of(&empty, pos(0, 0, 0)).is_empty());
    let geometry = build_chunk_mesh(&empty, &pos(0, 0, 0), &Chunks::chunk_to_world(pos(0, 0, 0)));
    assert!(geometry.vertices.is_empty() && geometry.indices.is_empty());
}

#[test]
fn chunk_without_its_neighbors_shows_only_inner_faces() {
    let mut chunks = Chunks::new();
    chunks.build_chunk_data(pos(0, 0, 0), &|x: i64, _y: i64, _z: i64| x < 8);
    let quads = quads_of(&chunks, pos(0, 0, 0));
    // The voxels on the negative boundary cannot see their neighbours and
    // are left out: 15 x 15 faces remain of the 16 x 16 on the plane x = 8.
    assert_eq!(quads.len(), 15 * 15);
    assert!(quads.iter().all(|q| q.direction == Direction::Right));
    assert!(quads.iter().all(|q| q.corners.iter().all(|c| c.x == 15)));
    // A chunk that is not resident has no faces.
    assert!(quads_of(&chunks, pos(1, 0, 0)).is_empty());
}

#[test]
fn seam_between_a_solid_and_an_empty_chunk_is_drawn_once() {
    // Solid up to x = 15, empty from x = 16 on: the boundary between the
    // chunks (0, 0, 0) and (1, 0, 0) is the plane x = 16, which is 31 in
    // doubled coordinates.
    let chunks = {
        let mut chunks = world_of(|x: i64, _y: i64, _z: i64| x < 16);
        for y in -1..=1 {
            for z in -1..=1 {
                chunks.build_chunk_data(pos(2, y, z), &|x: i64, _y: i64, _z: i64| x < 16);
            }
        }
        chunks
    };
    let on_seam = |q: &Quad| q.corners.iter().all(|c| c.x == 31);
    let solid_side = quads_of(&chunks, pos(0, 0, 0));
    let empty_side = quads_of(&chunks, pos(1, 0, 0));
    assert_eq!(solid_side.iter().filter(|q| on_seam(q)).count(), 0);
    assert_eq!(empty_side.iter().filter(|q| on_seam(q)).count(), 256);
    assert!(solid_side.is_empty());
    assert_eq!(empty_side.len(), 256);
    for y in 0..16 {
        for z in 0..16 {
            let here: Vec<&Quad> =
                empty_side.iter().filter(|q| owner(q) == (16, y, z) && on_seam(q)).collect();
            assert_eq!(here.len(), 1);
            assert_eq!(here[0].direction, Direction::Right);
        }
    }
}

#[test]
fn seam_between_an_empty_and_a_solid_chunk_is_drawn_once() {
    // Empty below y = 0, solid from there up: the chunk on the positive side
    // of the seam is the solid one, and it draws the faces looking down.
    let chunks = world_of(|_x: i64, y: i64, _z: i64| y >= 0);
    let on_seam = |q: &Quad| q.corners.iter().all(|c| c.y == -1);
    let below = quads_of(&chunks, pos(0, -1, 0));
    let above = quads_of(&chunks, pos(0, 0, 0));
    assert_eq!(below.iter().filter(|q| on_seam(q)).count(), 0);
    assert_eq!(above.iter().filter(|q| on_seam(q)).count(), 256);
    assert!(above.iter().all(|q| q.direction == Direction::Down));
    assert_eq!(below.len() + above.len(), 256);
}

#[test]
fn mesh_is_placed_at_the_chunk_origin() {
    let chunks = world_of(|_x: i64, y: i64, _z: i64| y < 0);
    let p = pos(0, 0, 1);
    let quads = quads_of(&chunks, p);
    assert_eq!(quads.len(), 256);
    for q in quads.iter() {
        assert_eq!(q.direction, Direction::Up);
        let (x, y, z) = owner(q);
        assert!((0..16).contains(&x));
        assert_eq!(y, 0);
        assert!((16..32).contains(&z));
    }
    // The same faces, placed at another origin.
    let moved = build_chunk_quads(&chunks, &p, &WorldPosition { x: 1000, y: 2000, z: 3000 });
    assert_eq!(moved.len(), 256);
    assert_eq!(owner(&moved[0]), (1000, 2000, 3000));
    assert_eq!(owner(&quads[0]), (0, 0, 16));
}
