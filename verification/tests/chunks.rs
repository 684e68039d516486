use voxel_chunks::rendering::gpu_resources::GpuBuffer;
use voxel_chunks::rendering::gpu_resources::GpuResources;
use voxel_chunks::voxel_tools::chunk::LocalCoordinate;
use voxel_chunks::voxel_tools::chunks::adjacent_voxels;
use voxel_chunks::voxel_tools::chunks::ChunkError;
use voxel_chunks::voxel_tools::chunks::Chunks;
use voxel_chunks::voxel_tools::chunks::DEFAULT_MAX_CHUNK_DATAS;
use voxel_chunks::voxel_tools::chunks::DEFAULT_MAX_MESH_DATAS;
use voxel_chunks::voxel_tools::chunks::MAX_DATA_QUEUE;
use voxel_chunks::voxel_tools::chunks::MAX_DATA_UNLOAD_QUEUE;
use voxel_chunks::voxel_tools::chunks::MAX_MESH_QUEUE;
use voxel_chunks::voxel_tools::chunks::MAX_MESH_UNLOAD_QUEUE;
use voxel_chunks::voxel_tools::chunks::RENDER_DIST_RADIUS;
use voxel_chunks::voxel_tools::mesh_builder::attach_chunk_mesh;
use voxel_chunks::voxel_tools::position::ChunkPosition;
use voxel_chunks::voxel_tools::position::ObserverPosition;
use voxel_chunks::voxel_tools::position::WorldPosition;
use voxel_chunks::voxel_tools::schedule::MAX_RENDER_DISTANCE;

fn pos(x: i32, y: i32, z: i32) -> ChunkPosition {
    ChunkPosition::new(x, y, z)
}

/// The cube of radius `r` around `center` in the order of the walk: layers
/// of rising y, in each rows of rising z, in each positions of rising x.
fn scan_neighborhood(center: ChunkPosition, r: i32) -> Vec<ChunkPosition> {
    let mut walk = Vec::new();
    for y in -r..=r {
        for z in -r..=r {
            for x in -r..=r {
                walk.push(pos(center.x + x, center.y + y, center.z + z));
            }
        }
    }
    walk
}

fn ground(_x: i64, y: i64, _z: i64) -> bool {
    y < 0
}

fn distance_squared(observer: (i64, i64, i64), p: &ChunkPosition) -> i64 {
    let dx = observer.0 - (p.x as i64 * 16 + 8);
    let dy = observer.1 - (p.y as i64 * 16 + 8);
    let dz = observer.2 - (p.z as i64 * 16 + 8);
    dx * dx + dy * dy + dz * dz
}

fn has_duplicates(queue: &Vec<ChunkPosition>) -> bool {
    for i in 0..queue.len() {
        for j in 0..queue.len() {
            if i != j && queue[i] == queue[j] {
                return true;
            }
        }
    }
    false
}

/// Generates the block of chunks from `-r` to `r` on each axis.
fn load_block(chunks: &mut Chunks, r: i32) {
    for x in -r..=r {
        for y in -r..=r {
            for z in -r..=r {
                if !chunks.is_chunk_processing(&pos(x, y, z)) {
                    chunks.build_chunk_data(pos(x, y, z), &ground);
                }
            }
        }
    }
}

#[test]
fn new_manager_is_empty() {
    let chunks = Chunks::new();
    assert!(chunks.data_load_queue().is_empty());
    assert!(chunks.mesh_load_queue().is_empty());
    assert!(chunks.data_unload_queue().is_empty());
    assert!(chunks.mesh_unload_queue().is_empty());
    assert!(chunks.resident_data_positions().is_empty());
    assert!(chunks.resident_mesh_positions().is_empty());
    assert_eq!(chunks.free_chunk_count(), DEFAULT_MAX_CHUNK_DATAS);
    assert_eq!(chunks.free_mesh_count(), DEFAULT_MAX_MESH_DATAS);
    assert_eq!(chunks.render_distance(), RENDER_DIST_RADIUS);
    assert_eq!(chunks.position(), ObserverPosition::new(0, 0, 0));
    assert_eq!(chunks.get_vertex_count(), 0);
}

#[test]
fn render_distance_must_be_in_bounds() {
    assert!(Chunks::with_render_distance(-1).is_none());
    assert!(Chunks::with_render_distance(MAX_RENDER_DISTANCE + 1).is_none());
    assert_eq!(Chunks::with_render_distance(0).unwrap().render_distance(), 0);
    assert_eq!(Chunks::with_render_distance(3).unwrap().render_distance(), 3);
}

#[test]
fn observer_position_is_kept() {
    let mut chunks = Chunks::new();
    chunks.set_observer_position(ObserverPosition::new(5, -6, 7));
    assert_eq!(chunks.position(), ObserverPosition::new(5, -6, 7));
    assert!(chunks.data_load_queue().is_empty());
}

#[test]
fn chunk_to_world_scales_by_the_chunk_size() {
    assert_eq!(Chunks::chunk_to_world(pos(0, 0, 0)), WorldPosition { x: 0, y: 0, z: 0 });
    assert_eq!(Chunks::chunk_to_world(pos(1, -2, 3)), WorldPosition { x: 16, y: -32, z: 48 });
    assert_eq!(
        Chunks::chunk_to_world(pos(i32::MAX, i32::MIN, 0)),
        WorldPosition { x: 34359738352, y: -34359738368, z: 0 }
    );
}

#[test]
fn range_test_measures_to_the_chunk_centre() {
    let chunks = Chunks::with_render_distance(1).unwrap();
    // 3 * 8 * 8 = 192 < 256
    assert!(chunks.in_range(pos(0, 0, 0)));
    assert!(chunks.in_range(pos(-1, -1, -1)));
    // 24 * 24 + 2 * 8 * 8 = 704 >= 256
    assert!(!chunks.in_range(pos(1, 0, 0)));
    assert!(!chunks.in_range(pos(0, -2, 0)));
}

#[test]
fn range_test_is_strict_at_the_boundary() {
    let mut chunks = Chunks::with_render_distance(1).unwrap();
    // The centre of chunk (1, 0, 0) is (24, 8, 8).
    chunks.set_observer_position(ObserverPosition::new(8, 8, 8));
    assert!(!chunks.in_range(pos(1, 0, 0)));
    chunks.set_observer_position(ObserverPosition::new(9, 8, 8));
    assert!(chunks.in_range(pos(1, 0, 0)));
}

#[test]
fn range_test_follows_the_observer() {
    let mut chunks = Chunks::new();
    assert!(chunks.in_range(pos(7, 0, 0)));
    assert!(!chunks.in_range(pos(8, 0, 0)));
    chunks.set_observer_position(ObserverPosition::new(1600, 0, 0));
    assert!(!chunks.in_range(pos(7, 0, 0)));
    assert!(chunks.in_range(pos(100, 0, 0)));
    assert!(!chunks.in_range(pos(i32::MIN, i32::MAX, i32::MIN)));
}

#[test]
fn box_test_uses_the_observer_chunk() {
    let mut chunks = Chunks::with_render_distance(2).unwrap();
    chunks.set_observer_position(ObserverPosition::new(160, 0, 0));
    assert!(!chunks.is_outside_box(&pos(10, 0, 0)));
    assert!(!chunks.is_outside_box(&pos(8, 2, -2)));
    assert!(!chunks.is_outside_box(&pos(12, -2, 2)));
    assert!(chunks.is_outside_box(&pos(7, 0, 0)));
    assert!(chunks.is_outside_box(&pos(13, 0, 0)));
    assert!(chunks.is_outside_box(&pos(10, 3, 0)));
    assert!(chunks.is_outside_box(&pos(10, 0, -3)));
}

#[test]
fn refresh_follows_the_observer_in_walk_order() {
    let mut chunks = Chunks::with_render_distance(1).unwrap();
    chunks.set_observer_position(ObserverPosition::new(168, 328, 488));
    chunks.update_load_data_queue();
    let queue = chunks.data_load_queue();
    // The observer stands at the centre of chunk (10, 20, 30), so of the
    // 27 chunks around it only its own is closer than one chunk.
    assert_eq!(queue, vec![pos(10, 20, 30)]);

    chunks.set_observer_position(ObserverPosition::new(160, 320, 480));
    chunks.update_load_data_queue();
    assert_eq!(
        chunks.data_load_queue(),
        vec![
            pos(10, 20, 30),
            pos(9, 19, 29),
            pos(10, 19, 29),
            pos(9, 19, 30),
            pos(10, 19, 30),
            pos(9, 20, 29),
            pos(10, 20, 29),
            pos(9, 20, 30),
        ]
    );
}

#[test]
fn refresh_with_radius_zero_queues_nothing() {
    let mut chunks = Chunks::with_render_distance(0).unwrap();
    chunks.update_load_data_queue();
    assert!(chunks.data_load_queue().is_empty());
    chunks.build_chunk_data(pos(0, 0, 0), &ground);
    chunks.update_load_mesh_queue();
    assert!(chunks.mesh_load_queue().is_empty());
}

#[test]
fn refresh_at_the_largest_render_distance_ends() {
    let mut chunks = Chunks::with_render_distance(MAX_RENDER_DISTANCE).unwrap();
    chunks.update_load_data_queue();
    let queue = chunks.data_load_queue();
    assert_eq!(queue.len(), MAX_DATA_QUEUE);
    // The first positions in range lie in the lowest layer of the cube,
    // around the axis through the observer.
    let reach = (MAX_RENDER_DISTANCE as i64 * 16) * (MAX_RENDER_DISTANCE as i64 * 16);
    for p in queue.iter() {
        assert_eq!(p.y, -MAX_RENDER_DISTANCE);
        assert!(distance_squared((0, 0, 0), p) < reach);
    }
    assert!(!has_duplicates(&queue));
}

#[test]
fn load_data_refresh_from_empty_state_radius_one() {
    let mut chunks = Chunks::with_render_distance(1).unwrap();
    chunks.set_observer_position(ObserverPosition::new(0, 0, 0));
    chunks.update_load_data_queue();
    let queue = chunks.data_load_queue();
    // Every queued position lies in the 3 x 3 x 3 neighbourhood of the
    // observer's chunk and passes the range test.
    for p in queue.iter() {
        assert!((-1..=1).contains(&p.x) && (-1..=1).contains(&p.y) && (-1..=1).contains(&p.z));
        assert!(distance_squared((0, 0, 0), p) < 16 * 16);
    }
    // And every position of the neighbourhood that passes it is queued.
    let walk = scan_neighborhood(pos(0, 0, 0), 1);
    assert_eq!(walk.len(), 27);
    let expected: Vec<ChunkPosition> =
        walk.into_iter().filter(|p| distance_squared((0, 0, 0), p) < 16 * 16).collect();
    assert_eq!(queue, expected);
    assert_eq!(
        queue,
        vec![
            pos(-1, -1, -1),
            pos(0, -1, -1),
            pos(-1, -1, 0),
            pos(0, -1, 0),
            pos(-1, 0, -1),
            pos(0, 0, -1),
            pos(-1, 0, 0),
            pos(0, 0, 0),
        ]
    );
}

#[test]
fn load_data_refresh_stops_at_the_cap() {
    let mut chunks = Chunks::new();
    chunks.update_load_data_queue();
    let queue = chunks.data_load_queue();
    assert_eq!(queue.len(), MAX_DATA_QUEUE);
    assert!(!has_duplicates(&queue));
    for p in queue.iter() {
        assert!(distance_squared((0, 0, 0), p) < 128 * 128);
    }
    // The queue holds the first positions of the walk that are in range.
    let expected: Vec<ChunkPosition> = scan_neighborhood(pos(0, 0, 0), 8)
        .into_iter()
        .filter(|p| distance_squared((0, 0, 0), p) < 128 * 128)
        .take(MAX_DATA_QUEUE)
        .collect();
    assert_eq!(queue, expected);
}

#[test]
fn load_data_refresh_on_a_full_queue_changes_nothing() {
    let mut chunks = Chunks::new();
    chunks.update_load_data_queue();
    let first = chunks.data_load_queue();
    chunks.update_load_data_queue();
    assert_eq!(chunks.data_load_queue(), first);
}

#[test]
fn load_data_refresh_never_queues_twice() {
    let mut chunks = Chunks::with_render_distance(1).unwrap();
    chunks.update_load_data_queue();
    let first = chunks.data_load_queue();
    assert_eq!(first.len(), 8);
    chunks.update_load_data_queue();
    assert_eq!(chunks.data_load_queue(), first);
    chunks.build_chunk_data_in_queue(&ground);
    assert!(chunks.data_load_queue().is_empty());
    chunks.update_load_data_queue();
    assert!(chunks.data_load_queue().is_empty());
    assert_eq!(chunks.resident_data_positions().len(), 8);
}

#[test]
fn load_data_refresh_goes_on_where_the_last_one_stopped() {
    let mut chunks = Chunks::new();
    let mut seen: Vec<ChunkPosition> = Vec::new();
    for _ in 0..4 {
        chunks.update_load_data_queue();
        let queue = chunks.data_load_queue();
        assert_eq!(queue.len(), MAX_DATA_QUEUE);
        for p in queue.iter() {
            assert!(!seen.contains(p));
            assert!(!chunks.is_chunk_processing(p) || queue.contains(p));
            seen.push(*p);
        }
        chunks.build_chunk_data_in_queue(&ground);
    }
    assert_eq!(seen.len(), 4 * MAX_DATA_QUEUE);
    assert_eq!(chunks.resident_data_positions().len(), 4 * MAX_DATA_QUEUE);
}

#[test]
fn building_data_makes_queued_chunks_resident() {
    let mut chunks = Chunks::with_render_distance(1).unwrap();
    chunks.update_load_data_queue();
    let queue = chunks.data_load_queue();
    let free = chunks.free_chunk_count();
    chunks.build_chunk_data_in_queue(&ground);
    assert!(chunks.data_load_queue().is_empty());
    assert_eq!(chunks.free_chunk_count(), free - queue.len());
    for p in queue.iter() {
        assert!(chunks.is_chunk_processing(p));
        let chunk = chunks.get_chunk(p).unwrap();
        let below = p.y < 0;
        assert!(chunk.voxels.iter().all(|v| v.is_solid() == below));
    }
    assert!(chunks.get_chunk(&pos(1, 1, 1)).is_none());
    assert!(!chunks.is_chunk_processing(&pos(1, 1, 1)));
}

#[test]
fn build_chunk_data_generates_at_the_chunk_origin() {
    let mut chunks = Chunks::new();
    chunks.build_chunk_data(pos(2, -1, 0), &|x: i64, y: i64, z: i64| x == 33 && y == -16 && z == 15);
    let chunk = chunks.get_chunk(&pos(2, -1, 0)).unwrap();
    for x in 0..16 {
        for y in 0..16 {
            for z in 0..16 {
                let v = chunk.get_voxel(LocalCoordinate(x, y, z)).unwrap();
                assert_eq!(v.is_solid(), (x, y, z) == (1, 0, 15));
            }
        }
    }
    assert_eq!(chunks.free_chunk_count(), DEFAULT_MAX_CHUNK_DATAS - 1);
}

#[test]
fn coordinates_inside_the_chunk_stay() {
    let mut chunk_pos = pos(3, 4, 5);
    let mut local = LocalCoordinate(0, 7, 15);
    Chunks::make_coords_valid(&mut chunk_pos, &mut local);
    assert_eq!(chunk_pos, pos(3, 4, 5));
    assert_eq!(local, LocalCoordinate(0, 7, 15));
}

#[test]
fn coordinates_one_step_outside_move_to_the_neighbor() {
    let mut chunk_pos = pos(3, 4, 5);
    let mut local = LocalCoordinate(-1, 16, 0);
    Chunks::make_coords_valid(&mut chunk_pos, &mut local);
    assert_eq!(chunk_pos, pos(2, 5, 5));
    assert_eq!(local, LocalCoordinate(15, 0, 0));

    let mut chunk_pos = pos(0, 0, 0);
    let mut local = LocalCoordinate(5, 5, -1);
    Chunks::make_coords_valid(&mut chunk_pos, &mut local);
    assert_eq!(chunk_pos, pos(0, 0, -1));
    assert_eq!(local, LocalCoordinate(5, 5, 15));
}

#[test]
fn coordinates_far_outside_walk_several_chunks() {
    let mut chunk_pos = pos(0, 0, 0);
    let mut local = LocalCoordinate(-33, 47, 160);
    Chunks::make_coords_valid(&mut chunk_pos, &mut local);
    assert_eq!(chunk_pos, pos(-3, 2, 10));
    assert_eq!(local, LocalCoordinate(15, 15, 0));
}

#[test]
fn coordinates_can_be_checked_before_they_are_walked() {
    assert!(Chunks::can_make_coords_valid(&pos(0, 0, 0), &LocalCoordinate(-1, 16, 5)));
    assert!(!Chunks::can_make_coords_valid(&pos(i32::MIN, 0, 0), &LocalCoordinate(-1, 0, 0)));
    assert!(Chunks::can_make_coords_valid(&pos(i32::MIN, 0, 0), &LocalCoordinate(0, 0, 0)));
    assert!(!Chunks::can_make_coords_valid(&pos(0, i32::MAX, 0), &LocalCoordinate(0, 16, 0)));
    assert!(Chunks::can_make_coords_valid(&pos(0, i32::MAX, 0), &LocalCoordinate(0, 15, 0)));
}

#[test]
fn voxel_of_a_missing_chunk_is_not_found() {
    let chunks = Chunks::new();
    assert_eq!(
        chunks.try_get_voxel(&pos(0, 0, 0), &LocalCoordinate(1, 1, 1)).err(),
        Some(ChunkError::NotFound)
    );
    assert_eq!(
        chunks.try_get_voxel(&pos(i32::MIN, 0, 0), &LocalCoordinate(-1, 0, 0)).err(),
        Some(ChunkError::NotFound)
    );
}

#[test]
fn voxel_lookup_crosses_into_the_neighbor() {
    let mut chunks = Chunks::new();
    chunks.build_chunk_data(pos(0, 0, 0), &ground);
    chunks.build_chunk_data(pos(0, -1, 0), &ground);
    assert!(!chunks.try_get_voxel(&pos(0, 0, 0), &LocalCoordinate(3, 0, 3)).unwrap().is_solid());
    assert!(chunks.try_get_voxel(&pos(0, 0, 0), &LocalCoordinate(3, -1, 3)).unwrap().is_solid());
    assert!(chunks.try_get_voxel(&pos(0, -1, 0), &LocalCoordinate(3, 15, 3)).unwrap().is_solid());
    assert!(!chunks.try_get_voxel(&pos(0, -1, 0), &LocalCoordinate(3, 16, 3)).unwrap().is_solid());
    assert_eq!(
        chunks.try_get_voxel(&pos(0, 0, 0), &LocalCoordinate(-1, 0, 0)).err(),
        Some(ChunkError::NotFound)
    );
}

#[test]
fn adjacent_voxels_need_all_three_neighbors() {
    let mut chunks = Chunks::new();
    chunks.build_chunk_data(pos(0, 0, 0), &ground);
    // Inside the chunk every neighbour is at hand.
    let (voxel, back, left, down) = adjacent_voxels(&chunks, (1, 1, 1), &pos(0, 0, 0)).unwrap();
    assert!(!voxel.is_solid() && !back.is_solid() && !left.is_solid() && !down.is_solid());
    // On the boundary the neighbouring chunks are missing.
    assert_eq!(adjacent_voxels(&chunks, (0, 1, 1), &pos(0, 0, 0)).err(), Some(ChunkError::NotFound));
    assert_eq!(adjacent_voxels(&chunks, (1, 0, 1), &pos(0, 0, 0)).err(), Some(ChunkError::NotFound));
    assert_eq!(adjacent_voxels(&chunks, (1, 1, 0), &pos(0, 0, 0)).err(), Some(ChunkError::NotFound));
    chunks.build_chunk_data(pos(0, -1, 0), &ground);
    let (voxel, _back, _left, down) = adjacent_voxels(&chunks, (1, 0, 1), &pos(0, 0, 0)).unwrap();
    assert!(!voxel.is_solid());
    assert!(down.is_solid());
}

#[test]
fn mesh_refresh_needs_the_chunk_and_its_six_neighbors() {
    let mut chunks = Chunks::with_render_distance(1).unwrap();
    chunks.update_load_mesh_queue();
    assert!(chunks.mesh_load_queue().is_empty());

    // The eight chunks in range are resident, but none has all its neighbours.
    chunks.update_load_data_queue();
    chunks.build_chunk_data_in_queue(&ground);
    chunks.update_load_mesh_queue();
    assert!(chunks.mesh_load_queue().is_empty());

    // With the whole block resident, only its centre is surrounded.
    load_block(&mut chunks, 1);
    assert_eq!(chunks.resident_data_positions().len(), 27);
    chunks.update_load_mesh_queue();
    assert_eq!(chunks.mesh_load_queue(), vec![pos(0, 0, 0)]);
    assert!(chunks.is_mesh_processing(&pos(0, 0, 0)));
    assert!(!chunks.is_mesh_processing(&pos(-1, 0, 0)));
}

#[test]
fn mesh_refresh_skips_a_chunk_with_a_missing_neighbor() {
    let mut chunks = Chunks::with_render_distance(1).unwrap();
    for p in [pos(0, 0, 0), pos(-1, 0, 0), pos(1, 0, 0), pos(0, -1, 0), pos(0, 1, 0), pos(0, 0, -1)] {
        chunks.build_chunk_data(p, &ground);
    }
    chunks.update_load_mesh_queue();
    assert!(chunks.mesh_load_queue().is_empty());
    chunks.build_chunk_data(pos(0, 0, 1), &ground);
    chunks.update_load_mesh_queue();
    assert_eq!(chunks.mesh_load_queue(), vec![pos(0, 0, 0)]);
}

#[test]
fn mesh_refresh_needs_the_chunk_itself() {
    let mut chunks = Chunks::with_render_distance(1).unwrap();
    for p in [pos(-1, 0, 0), pos(1, 0, 0), pos(0, -1, 0), pos(0, 1, 0), pos(0, 0, -1), pos(0, 0, 1)] {
        chunks.build_chunk_data(p, &ground);
    }
    chunks.update_load_mesh_queue();
    assert!(chunks.mesh_load_queue().is_empty());
}

#[test]
fn mesh_refresh_stops_at_the_cap_and_never_queues_twice() {
    let mut chunks = Chunks::new();
    load_block(&mut chunks, 4);
    chunks.update_load_mesh_queue();
    let queue = chunks.mesh_load_queue();
    assert_eq!(queue.len(), MAX_MESH_QUEUE);
    assert!(!has_duplicates(&queue));
    for p in queue.iter() {
        assert!(p.x.abs() <= 3 && p.y.abs() <= 3 && p.z.abs() <= 3);
        assert!(chunks.get_chunk(p).is_some());
        for (dx, dy, dz) in [(-1, 0, 0), (1, 0, 0), (0, -1, 0), (0, 1, 0), (0, 0, -1), (0, 0, 1)] {
            assert!(chunks.get_chunk(&pos(p.x + dx, p.y + dy, p.z + dz)).is_some());
        }
    }
    chunks.update_load_mesh_queue();
    assert_eq!(chunks.mesh_load_queue(), queue);
}

#[test]
fn mesh_round_builds_one_chunk_with_faces() {
    let mut chunks = Chunks::new();
    load_block(&mut chunks, 4);
    chunks.update_load_mesh_queue();
    let queue = chunks.mesh_load_queue();
    // The walk starts at the bottom: the first chunks are all below ground
    // and solid throughout, so they have no faces.
    let first_with_faces = queue.iter().position(|p| p.y == 0);
    let free = chunks.free_mesh_count();
    let work = chunks.build_chunk_meshes_in_queue();
    match first_with_faces {
        Some(k) => {
            let job = work.unwrap();
            assert_eq!(job.position, queue[k]);
            assert_eq!(job.geometry.vertices.len(), 4 * 256);
            assert_eq!(job.geometry.indices.len(), 6 * 256);
            assert_eq!(chunks.mesh_load_queue(), queue[k + 1..].to_vec());
            assert_eq!(chunks.free_mesh_count(), free - (k + 1));
            for p in queue[..=k].iter() {
                let mesh = chunks.get_chunk_mesh(p).unwrap();
                assert!(mesh.vertex_buffer.is_none() && mesh.index_buffer.is_none());
            }
        },
        None => {
            assert!(work.is_none());
            assert!(chunks.mesh_load_queue().is_empty());
            assert_eq!(chunks.free_mesh_count(), free - queue.len());
            assert_eq!(chunks.resident_mesh_positions().len(), queue.len());
        },
    }
}

#[test]
fn mesh_round_skips_chunks_without_faces() {
    let mut chunks = Chunks::with_render_distance(1).unwrap();
    for x in -1..=1 {
        for y in -1..=1 {
            for z in -1..=1 {
                chunks.build_chunk_data(pos(x, y, z), &|_x: i64, _y: i64, _z: i64| true);
            }
        }
    }
    chunks.update_load_mesh_queue();
    assert_eq!(chunks.mesh_load_queue(), vec![pos(0, 0, 0)]);
    assert!(chunks.build_chunk_meshes_in_queue().is_none());
    assert!(chunks.mesh_load_queue().is_empty());
    // The chunk keeps a mesh without buffers, and is not queued again.
    let mesh = chunks.get_chunk_mesh(&pos(0, 0, 0)).unwrap();
    assert!(mesh.vertex_buffer.is_none() && mesh.index_buffer.is_none());
    chunks.update_load_mesh_queue();
    assert!(chunks.mesh_load_queue().is_empty());
}

#[test]
fn mesh_round_takes_nothing_once_the_manager_holds_its_fill() {
    let empty = |_x: i64, _y: i64, _z: i64| false;
    let home = ObserverPosition::new(8, 8, 8);
    let mut chunks = Chunks::with_render_distance(14).unwrap();
    let mut gpu = GpuResources::new();
    chunks.set_observer_position(home);
    for x in -15..=15 {
        for y in -15..=15 {
            for z in -15..=15 {
                chunks.build_chunk_data(pos(x, y, z), &empty);
            }
        }
    }
    // No chunk has faces, so every round claims all that waits, until the
    // manager holds its fill of meshes.
    let mut rounds = 0;
    while chunks.resident_mesh_positions().len() < DEFAULT_MAX_MESH_DATAS {
        chunks.update_load_mesh_queue();
        assert_eq!(chunks.mesh_load_queue().len(), MAX_MESH_QUEUE);
        assert!(chunks.build_chunk_meshes_in_queue().is_none());
        assert!(chunks.mesh_load_queue().is_empty());
        rounds += 1;
    }
    assert_eq!(rounds, DEFAULT_MAX_MESH_DATAS / MAX_MESH_QUEUE);
    assert_eq!(chunks.free_mesh_count(), 0);

    // At its fill the manager schedules no further mesh.
    chunks.update_load_mesh_queue();
    assert!(chunks.mesh_load_queue().is_empty());

    // Two chunks further along z the 89 meshes of the layer z = -13 lie
    // outside the box. Once they are evicted, 89 meshes fit again.
    chunks.set_observer_position(ObserverPosition::new(8, 8, 8 + 32));
    let mut evicted = 0;
    loop {
        chunks.update_unload_mesh_queue();
        let queue = chunks.mesh_unload_queue();
        if queue.is_empty() {
            break;
        }
        assert!(queue.iter().all(|p| p.z == -13));
        evicted += queue.len();
        chunks.unload_mesh_queue(&mut gpu);
    }
    assert_eq!(evicted, 89);
    assert_eq!(chunks.resident_mesh_positions().len(), DEFAULT_MAX_MESH_DATAS - 89);

    // Five full rounds take 80 positions; the sixth finds room for nine.
    chunks.set_observer_position(home);
    for _ in 0..5 {
        chunks.update_load_mesh_queue();
        assert_eq!(chunks.mesh_load_queue().len(), MAX_MESH_QUEUE);
        assert!(chunks.build_chunk_meshes_in_queue().is_none());
        assert!(chunks.mesh_load_queue().is_empty());
    }
    chunks.update_load_mesh_queue();
    let waiting = chunks.mesh_load_queue();
    assert_eq!(waiting.len(), MAX_MESH_QUEUE);
    assert!(chunks.build_chunk_meshes_in_queue().is_none());
    assert_eq!(chunks.resident_mesh_positions().len(), DEFAULT_MAX_MESH_DATAS);
    // What was taken has its mesh; what was not taken still waits, in order.
    assert_eq!(chunks.mesh_load_queue(), waiting[9..].to_vec());
    for p in waiting[..9].iter() {
        assert!(chunks.get_chunk_mesh(p).is_some());
    }
    for p in waiting.iter() {
        assert!(chunks.is_mesh_processing(p));
    }
    // Nothing moves while the manager holds its fill.
    assert!(chunks.build_chunk_meshes_in_queue().is_none());
    chunks.update_load_mesh_queue();
    assert_eq!(chunks.mesh_load_queue(), waiting[9..].to_vec());
}

#[test]
fn attached_buffers_are_kept_by_the_mesh_and_the_arena() {
    let mut chunks = Chunks::with_render_distance(1).unwrap();
    let mut gpu = GpuResources::new();
    load_block(&mut chunks, 1);
    chunks.update_load_mesh_queue();
    let job = chunks.build_chunk_meshes_in_queue().unwrap();
    assert_eq!(job.position, pos(0, 0, 0));
    let built = attach_chunk_mesh(
        &mut chunks,
        &mut gpu,
        &job.position,
        GpuBuffer { id: 100 },
        GpuBuffer { id: 200 },
        job.geometry.indices.len() as u32,
        job.geometry.vertices.len() as u32,
    );
    assert!(built);
    let mesh = chunks.get_chunk_mesh(&pos(0, 0, 0)).unwrap();
    assert_eq!(mesh.num_indices, 1536);
    assert_eq!(mesh.num_vertices, 1024);
    assert_eq!(gpu.get(mesh.vertex_buffer.unwrap()), Some(&GpuBuffer { id: 100 }));
    assert_eq!(gpu.get(mesh.index_buffer.unwrap()), Some(&GpuBuffer { id: 200 }));
    assert_ne!(mesh.vertex_buffer, mesh.index_buffer);
    assert_eq!(gpu.buffer_arena.len(), 2);
    assert_eq!(chunks.get_vertex_count(), 1024);
}

#[test]
fn attaching_to_a_missing_mesh_does_nothing() {
    let mut chunks = Chunks::new();
    let mut gpu = GpuResources::new();
    let built = attach_chunk_mesh(
        &mut chunks,
        &mut gpu,
        &pos(0, 0, 0),
        GpuBuffer { id: 1 },
        GpuBuffer { id: 2 },
        6,
        4,
    );
    assert!(!built);
    assert_eq!(gpu.buffer_arena.len(), 0);
    assert!(chunks.get_chunk_mesh(&pos(0, 0, 0)).is_none());
}

#[test]
fn mesh_entry_can_be_changed_in_place() {
    let mut chunks = Chunks::with_render_distance(1).unwrap();
    load_block(&mut chunks, 1);
    chunks.update_load_mesh_queue();
    chunks.build_chunk_meshes_in_queue();
    assert!(chunks.get_chunk_mesh_mut(&pos(5, 5, 5)).is_none());
    chunks.get_chunk_mesh_mut(&pos(0, 0, 0)).unwrap().num_vertices = 77;
    assert_eq!(chunks.get_chunk_mesh(&pos(0, 0, 0)).unwrap().num_vertices, 77);
    assert_eq!(chunks.get_vertex_count(), 77);
    assert_eq!(chunks.resident_mesh_positions(), vec![pos(0, 0, 0)]);
}

#[test]
fn draw_lists_complete_meshes_and_skips_the_rest() {
    let mut chunks = Chunks::with_render_distance(1).unwrap();
    let mut gpu = GpuResources::new();
    load_block(&mut chunks, 1);
    chunks.update_load_mesh_queue();
    let job = chunks.build_chunk_meshes_in_queue().unwrap();

    // A mesh without buffers is incomplete.
    assert_eq!(chunks.draw_call(&pos(0, 0, 0), &gpu).err(), Some(ChunkError::IncompleteMesh));
    assert_eq!(chunks.draw_call(&pos(1, 0, 0), &gpu).err(), Some(ChunkError::NotFound));
    let list = chunks.draw(&gpu);
    assert!(list.calls.is_empty());
    assert_eq!(list.skipped, vec![pos(0, 0, 0)]);

    attach_chunk_mesh(
        &mut chunks,
        &mut gpu,
        &job.position,
        GpuBuffer { id: 7 },
        GpuBuffer { id: 8 },
        1536,
        1024,
    );
    let list = chunks.draw(&gpu);
    assert!(list.skipped.is_empty());
    assert_eq!(list.calls.len(), 1);
    assert_eq!(list.calls[0].position, pos(0, 0, 0));
    assert_eq!(list.calls[0].vertex_buffer, GpuBuffer { id: 7 });
    assert_eq!(list.calls[0].index_buffer, GpuBuffer { id: 8 });
    assert_eq!(list.calls[0].num_indices, 1536);

    // A handle that the arena no longer holds makes the mesh incomplete.
    let vertex = chunks.get_chunk_mesh(&pos(0, 0, 0)).unwrap().vertex_buffer.unwrap();
    gpu.remove(vertex);
    assert_eq!(chunks.draw_call(&pos(0, 0, 0), &gpu).err(), Some(ChunkError::IncompleteMesh));
    let list = chunks.draw(&gpu);
    assert!(list.calls.is_empty());
    assert_eq!(list.skipped, vec![pos(0, 0, 0)]);
}

#[test]
fn unload_refresh_queues_what_lies_outside_the_box() {
    let mut chunks = Chunks::with_render_distance(1).unwrap();
    load_block(&mut chunks, 1);
    chunks.update_unload_data_queue();
    assert!(chunks.data_unload_queue().is_empty());

    // Two chunks to the right, the chunks at x = -1 fall out of the box.
    chunks.set_observer_position(ObserverPosition::new(16, 0, 0));
    chunks.update_unload_data_queue();
    let mut queue = chunks.data_unload_queue();
    assert_eq!(queue.len(), 9);
    assert!(!has_duplicates(&queue));
    assert!(queue.iter().all(|p| p.x == -1));
    queue.sort_by_key(|p| (p.y, p.z));
    let expected: Vec<ChunkPosition> =
        (-1..=1).flat_map(|y| (-1..=1).map(move |z| pos(-1, y, z))).collect();
    assert_eq!(queue, expected);

    chunks.update_unload_data_queue();
    assert_eq!(chunks.data_unload_queue().len(), 9);
}

#[test]
fn unload_refresh_stops_at_the_cap() {
    let mut chunks = Chunks::with_render_distance(1).unwrap();
    load_block(&mut chunks, 1);
    chunks.set_observer_position(ObserverPosition::new(16000, 0, 0));
    chunks.update_unload_data_queue();
    let queue = chunks.data_unload_queue();
    assert_eq!(queue.len(), MAX_DATA_UNLOAD_QUEUE);
    assert!(!has_duplicates(&queue));
    assert!(queue.iter().all(|p| chunks.get_chunk(p).is_some()));
    chunks.update_unload_data_queue();
    assert_eq!(chunks.data_unload_queue(), queue);
}

#[test]
fn unloading_data_returns_chunks_to_the_pool() {
    let mut chunks = Chunks::with_render_distance(1).unwrap();
    load_block(&mut chunks, 1);
    assert_eq!(chunks.free_chunk_count(), DEFAULT_MAX_CHUNK_DATAS - 27);
    chunks.set_observer_position(ObserverPosition::new(16000, 0, 0));
    chunks.update_unload_data_queue();
    let queue = chunks.data_unload_queue();
    chunks.unload_data_queue();
    assert!(chunks.data_unload_queue().is_empty());
    assert_eq!(chunks.resident_data_positions().len(), 27 - MAX_DATA_UNLOAD_QUEUE);
    assert_eq!(chunks.free_chunk_count(), DEFAULT_MAX_CHUNK_DATAS - 27 + MAX_DATA_UNLOAD_QUEUE);
    assert!(queue.iter().all(|p| chunks.get_chunk(p).is_none()));

    chunks.update_unload_data_queue();
    assert_eq!(chunks.data_unload_queue().len(), 11);
    chunks.unload_data_queue();
    assert!(chunks.resident_data_positions().is_empty());
    assert_eq!(chunks.free_chunk_count(), DEFAULT_MAX_CHUNK_DATAS);
}

#[test]
fn evicting_a_mesh_releases_its_buffers() {
    let mut chunks = Chunks::with_render_distance(1).unwrap();
    let mut gpu = GpuResources::new();
    let other = gpu.insert(GpuBuffer { id: 1 });
    load_block(&mut chunks, 1);
    chunks.update_load_mesh_queue();
    let job = chunks.build_chunk_meshes_in_queue().unwrap();
    attach_chunk_mesh(
        &mut chunks,
        &mut gpu,
        &job.position,
        GpuBuffer { id: 10 },
        GpuBuffer { id: 20 },
        1536,
        1024,
    );
    let mesh = chunks.get_chunk_mesh(&pos(0, 0, 0)).unwrap();
    let (vertex, index) = (mesh.vertex_buffer.unwrap(), mesh.index_buffer.unwrap());
    assert!(gpu.get(vertex).is_some() && gpu.get(index).is_some());

    // Nothing is evicted while the mesh is inside the box.
    chunks.update_unload_mesh_queue();
    assert!(chunks.mesh_unload_queue().is_empty());

    chunks.set_observer_position(ObserverPosition::new(1600, 0, 0));
    chunks.update_unload_mesh_queue();
    assert_eq!(chunks.mesh_unload_queue(), vec![pos(0, 0, 0)]);
    let free = chunks.free_mesh_count();
    let released = chunks.unload_mesh_queue(&mut gpu);

    assert!(gpu.get(vertex).is_none());
    assert!(gpu.get(index).is_none());
    assert!(gpu.buffer_arena.get(vertex).is_none());
    assert!(gpu.buffer_arena.get(index).is_none());
    assert_eq!(chunks.free_mesh_count(), free + 1);
    assert!(chunks.mesh_unload_queue().is_empty());
    assert!(chunks.get_chunk_mesh(&pos(0, 0, 0)).is_none());
    assert_eq!(gpu.get(other), Some(&GpuBuffer { id: 1 }));
    assert_eq!(released.len(), 2);
    assert_eq!((released[0].handle, released[0].buffer), (vertex, GpuBuffer { id: 10 }));
    assert_eq!((released[1].handle, released[1].buffer), (index, GpuBuffer { id: 20 }));
}

#[test]
fn mesh_unload_refresh_stops_at_the_cap() {
    let mut chunks = Chunks::with_render_distance(3).unwrap();
    let mut gpu = GpuResources::new();
    for x in -3..=3 {
        for y in -3..=3 {
            for z in -3..=3 {
                chunks.build_chunk_data(pos(x, y, z), &|_x: i64, _y: i64, _z: i64| true);
            }
        }
    }
    // Solid throughout, no chunk has faces: every round claims a full queue.
    for _ in 0..2 {
        chunks.update_load_mesh_queue();
        assert_eq!(chunks.mesh_load_queue().len(), MAX_MESH_QUEUE);
        assert!(chunks.build_chunk_meshes_in_queue().is_none());
    }
    assert_eq!(chunks.resident_mesh_positions().len(), 2 * MAX_MESH_QUEUE);
    assert_eq!(chunks.free_mesh_count(), DEFAULT_MAX_MESH_DATAS - 2 * MAX_MESH_QUEUE);

    chunks.set_observer_position(ObserverPosition::new(0, 16000, 0));
    chunks.update_unload_mesh_queue();
    let queue = chunks.mesh_unload_queue();
    assert_eq!(queue.len(), MAX_MESH_UNLOAD_QUEUE);
    assert!(!has_duplicates(&queue));
    chunks.update_unload_mesh_queue();
    assert_eq!(chunks.mesh_unload_queue(), queue);

    assert!(chunks.unload_mesh_queue(&mut gpu).is_empty());
    assert_eq!(chunks.resident_mesh_positions().len(), MAX_MESH_QUEUE);
    assert_eq!(chunks.free_mesh_count(), DEFAULT_MAX_MESH_DATAS - MAX_MESH_QUEUE);
    assert!(queue.iter().all(|p| chunks.get_chunk_mesh(p).is_none()));
}

#[test]
fn evicted_chunk_regenerates_identically() {
    let terrain = |x: i64, y: i64, z: i64| (x * 3 + y * 5 + z * 7).rem_euclid(11) < 4;
    let mut chunks = Chunks::with_render_distance(1).unwrap();
    let p = pos(-1, 0, -1);
    chunks.update_load_data_queue();
    chunks.build_chunk_data_in_queue(&terrain);
    let first: Vec<u8> = chunks.get_chunk(&p).unwrap().voxels.iter().map(|v| v.density()).collect();

    chunks.set_observer_position(ObserverPosition::new(1600, 0, 0));
    chunks.update_unload_data_queue();
    chunks.unload_data_queue();
    assert!(chunks.get_chunk(&p).is_none());

    chunks.set_observer_position(ObserverPosition::new(0, 0, 0));
    chunks.update_load_data_queue();
    chunks.build_chunk_data_in_queue(&terrain);
    let again: Vec<u8> = chunks.get_chunk(&p).unwrap().voxels.iter().map(|v| v.density()).collect();
    assert_eq!(first, again);
    assert!(first.iter().any(|d| *d == 255) && first.iter().any(|d| *d == 0));
}

#[test]
fn evicting_a_mesh_without_buffers_touches_no_buffer() {
    let mut chunks = Chunks::with_render_distance(1).unwrap();
    let mut gpu = GpuResources::new();
    let other = gpu.insert(GpuBuffer { id: 1 });
    load_block(&mut chunks, 1);
    chunks.update_load_mesh_queue();
    chunks.build_chunk_meshes_in_queue();
    chunks.set_observer_position(ObserverPosition::new(1600, 0, 0));
    chunks.update_unload_mesh_queue();
    assert_eq!(chunks.mesh_unload_queue().len(), 1);
    assert!(chunks.mesh_unload_queue().len() <= MAX_MESH_UNLOAD_QUEUE);
    let free = chunks.free_mesh_count();
    let released = chunks.unload_mesh_queue(&mut gpu);
    assert!(released.is_empty());
    assert_eq!(chunks.free_mesh_count(), free + 1);
    assert_eq!(gpu.buffer_arena.len(), 1);
    assert!(gpu.contains(other));
}

#[test]
fn a_frame_runs_its_steps_in_order() {
    let mut chunks = Chunks::with_render_distance(2).unwrap();
    let mut gpu = GpuResources::new();
    let mut next_id = 0u64;
    for _ in 0..40 {
        chunks.update_load_data_queue();
        chunks.update_load_mesh_queue();
        chunks.update_unload_mesh_queue();
        chunks.update_unload_data_queue();
        assert!(chunks.data_load_queue().len() <= MAX_DATA_QUEUE);
        assert!(chunks.mesh_load_queue().len() <= MAX_MESH_QUEUE);
        assert!(chunks.data_unload_queue().len() <= MAX_DATA_UNLOAD_QUEUE);
        assert!(chunks.mesh_unload_queue().len() <= MAX_MESH_UNLOAD_QUEUE);
        chunks.build_chunk_data_in_queue(&ground);
        if let Some(job) = chunks.build_chunk_meshes_in_queue() {
            let built = attach_chunk_mesh(
                &mut chunks,
                &mut gpu,
                &job.position,
                GpuBuffer { id: next_id },
                GpuBuffer { id: next_id + 1 },
                job.geometry.indices.len() as u32,
                job.geometry.vertices.len() as u32,
            );
            assert!(built);
            next_id += 2;
        }
        chunks.unload_data_queue();
        chunks.unload_mesh_queue(&mut gpu);
    }
    let list = chunks.draw(&gpu);
    assert!(!list.calls.is_empty());
    assert_eq!(2 * list.calls.len(), gpu.buffer_arena.len());
    assert_eq!(chunks.get_vertex_count(), 1024 * list.calls.len() as u64);
    for call in list.calls.iter() {
        assert_eq!(call.position.y, 0);
        assert_eq!(call.num_indices, 1536);
    }
}
