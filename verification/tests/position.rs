use voxel_chunks::voxel_tools::position::ChunkPosition;
use voxel_chunks::voxel_tools::position::ObserverPosition;
use voxel_chunks::voxel_tools::position::BIT_SIZE;
use voxel_chunks::voxel_tools::position::SIZE;
use voxel_chunks::voxel_tools::position::VOLUME;

#[test]
fn chunk_dimensions_agree() {
    assert_eq!(SIZE, 16);
    assert_eq!(1usize << BIT_SIZE, SIZE);
    assert_eq!(SIZE * SIZE * SIZE, VOLUME);
}

#[test]
fn key_of_the_origin() {
    let k = ChunkPosition::new(0, 0, 0).to_key();
    let shift: u128 = 0x8000_0000;
    assert_eq!(k, (shift << 64) + (shift << 32) + shift);
}

#[test]
fn key_packs_each_coordinate_into_its_own_32_bits() {
    let k = ChunkPosition::new(1, -2, 3).to_key();
    assert_eq!(k >> 64, 0x8000_0001);
    assert_eq!((k >> 32) & 0xffff_ffff, 0x7fff_fffe);
    assert_eq!(k & 0xffff_ffff, 0x8000_0003);
}

#[test]
fn key_round_trip() {
    let samples = [
        (0, 0, 0),
        (1, 2, 3),
        (-1, -2, -3),
        (i32::MAX, i32::MIN, 0),
        (i32::MIN, i32::MAX, -1),
        (123456, -654321, 42),
    ];
    for (x, y, z) in samples {
        let p = ChunkPosition::new(x, y, z);
        assert_eq!(ChunkPosition::from_key(p.to_key()), p);
    }
}

#[test]
fn keys_of_neighbors_differ() {
    let p = ChunkPosition::new(5, 5, 5);
    let mut keys = vec![p.to_key()];
    for (dx, dy, dz) in [(-1, 0, 0), (1, 0, 0), (0, -1, 0), (0, 1, 0), (0, 0, -1), (0, 0, 1)] {
        keys.push(p.checked_offset(dx, dy, dz).unwrap().to_key());
    }
    for i in 0..keys.len() {
        for j in 0..keys.len() {
            if i != j {
                assert_ne!(keys[i], keys[j]);
            }
        }
    }
}

#[test]
fn checked_offset_stays_on_the_grid() {
    let p = ChunkPosition::new(i32::MAX, 0, i32::MIN);
    assert_eq!(p.checked_offset(1, 0, 0), None);
    assert_eq!(p.checked_offset(0, 0, -1), None);
    assert_eq!(p.checked_offset(-1, 1, 1), Some(ChunkPosition::new(i32::MAX - 1, 1, i32::MIN + 1)));
    assert_eq!(p.checked_offset(0, 0, 0), Some(p));
}

#[test]
fn observer_chunk_rounds_toward_zero() {
    assert_eq!(ObserverPosition::new(0, 0, 0).current_chunk(), ChunkPosition::new(0, 0, 0));
    assert_eq!(ObserverPosition::new(15, 16, 17).current_chunk(), ChunkPosition::new(0, 1, 1));
    assert_eq!(ObserverPosition::new(-1, -15, -16).current_chunk(), ChunkPosition::new(0, 0, -1));
    assert_eq!(ObserverPosition::new(-17, -32, 160).current_chunk(), ChunkPosition::new(-1, -2, 10));
    assert_eq!(
        ObserverPosition::new(i32::MIN, i32::MAX, 0).current_chunk(),
        ChunkPosition::new(-134217728, 134217727, 0)
    );
}
