//! The streaming manager: which chunks are resident, which are waiting to be
//! generated, meshed or evicted, and the steps that move them along.

use crate::voxel_tools::chunk::Chunk;
use crate::voxel_tools::chunk::ChunkMesh;
use crate::voxel_tools::chunk::LocalCoordinate;
use crate::voxel_tools::keyed::keys_valid;
use crate::voxel_tools::keyed::lemma_positions_empty;
use crate::voxel_tools::keyed::positions_in;
use crate::voxel_tools::keyed::positions_of;
use crate::voxel_tools::pool::ChunkMeshPool;
use crate::voxel_tools::pool::ChunkPool;
use crate::voxel_tools::position::ChunkPosition;
use crate::voxel_tools::position::ObserverPosition;
use crate::voxel_tools::position::WorldPosition;
use crate::voxel_tools::schedule::MAX_RENDER_DISTANCE;
use crate::voxel_tools::schedule::neighborhood;
use crate::voxel_tools::schedule::refreshed;
use crate::voxel_tools::voxel::Voxel;
use std::collections::HashMap;
use std::collections::VecDeque;
use vstd::prelude::*;

pub mod drawing;
pub mod loading;
pub mod meshing;
pub mod unloading;

verus! {

broadcast use vstd::std_specs::hash::group_hash_axioms;

/// The number of resident chunks from which no further chunk is scheduled.
pub const DEFAULT_MAX_CHUNK_DATAS: usize = 10000;

/// The number of resident meshes from which no further mesh is scheduled or
/// built.
pub const DEFAULT_MAX_MESH_DATAS: usize = 10000;

/// The render distance, in chunks, of a new manager.
pub const RENDER_DIST_RADIUS: i32 = 8;

/// The most positions that wait to be generated.
pub const MAX_DATA_QUEUE: usize = 16;

/// The most positions that wait to be meshed.
pub const MAX_MESH_QUEUE: usize = 16;

/// The most positions that wait for their chunk to be evicted.
pub const MAX_DATA_UNLOAD_QUEUE: usize = 16;

/// The most positions that wait for their mesh to be evicted.
pub const MAX_MESH_UNLOAD_QUEUE: usize = 16;

/// What can keep a chunk from being read or drawn. Neither is fatal: the
/// caller skips the chunk and goes on.
#[derive(Clone, Copy, Debug, PartialEq, Eq, Structural)]
pub enum ChunkError {
    /// The chunk, or the mesh, is not resident.
    NotFound,
    /// The mesh is resident but has no buffers that could be drawn.
    IncompleteMesh,
}

/// The chunk that holds the voxel `local`, counted from the corner of
/// `chunk`: each step of `SIZE` voxels along an axis is one chunk.
pub open spec fn normalized_chunk(chunk: ChunkPosition, local: LocalCoordinate) -> ChunkPosition {
    chunk.offset(local.0 / 16, local.1 / 16, local.2 / 16)
}

/// The place of the voxel `local` inside the chunk that holds it.
pub open spec fn normalized_local(local: LocalCoordinate) -> LocalCoordinate {
    LocalCoordinate((local.0 % 16) as i32, (local.1 % 16) as i32, (local.2 % 16) as i32)
}

/// Whether the chunk that holds the voxel `local`, counted from `chunk`, is
/// on the chunk grid.
pub open spec fn can_normalize(chunk: ChunkPosition, local: LocalCoordinate) -> bool {
    chunk.can_offset(local.0 / 16, local.1 / 16, local.2 / 16)
}

/// The voxel at `local`, counted from the corner of `chunk`, where the chunk
/// that holds it is resident.
pub open spec fn voxel_at(
    data: Map<ChunkPosition, Chunk>,
    chunk: ChunkPosition,
    local: LocalCoordinate,
) -> Option<Voxel> {
    if can_normalize(chunk, local) && data.contains_key(normalized_chunk(chunk, local)) {
        Some(data[normalized_chunk(chunk, local)].voxels[normalized_local(local).index()])
    } else {
        None
    }
}

/// The square of the distance from the observer to the centre of a chunk, in
/// voxels.
pub open spec fn distance_squared(observer: ObserverPosition, chunk: ChunkPosition) -> int {
    let dx = observer.x - (chunk.x * 16 + 8);
    let dy = observer.y - (chunk.y * 16 + 8);
    let dz = observer.z - (chunk.z * 16 + 8);
    dx * dx + dy * dy + dz * dz
}

/// Whether the centre of a chunk is closer to the observer than `r` chunks.
pub open spec fn within_range(observer: ObserverPosition, r: int, chunk: ChunkPosition) -> bool {
    distance_squared(observer, chunk) < (r * 16) * (r * 16)
}

/// Whether a chunk lies outside the cube of radius `r` around the chunk the
/// observer stands in.
pub open spec fn outside_box(observer: ObserverPosition, r: int, chunk: ChunkPosition) -> bool {
    let center = observer.chunk();
    ||| chunk.x < center.x - r
    ||| chunk.x > center.x + r
    ||| chunk.y < center.y - r
    ||| chunk.y > center.y + r
    ||| chunk.z < center.z - r
    ||| chunk.z > center.z + r
}

/// What the manager holds, as plain maps and sequences.
pub struct ChunksView {
    /// The resident chunks.
    pub data: Map<ChunkPosition, Chunk>,
    /// The resident meshes.
    pub meshes: Map<ChunkPosition, ChunkMesh>,
    /// The positions that wait to be generated, first in, first out.
    pub data_load_queue: Seq<ChunkPosition>,
    /// The positions that wait to be meshed.
    pub mesh_load_queue: Seq<ChunkPosition>,
    /// The positions whose chunk waits to be evicted.
    pub data_unload_queue: Seq<ChunkPosition>,
    /// The positions whose mesh waits to be evicted.
    pub mesh_unload_queue: Seq<ChunkPosition>,
    /// The chunks that lie free in the pool.
    pub free_chunks: nat,
    /// The meshes that lie free in the pool.
    pub free_meshes: nat,
    /// Where the observer stands.
    pub position: ObserverPosition,
    /// The render distance, in chunks.
    pub render_distance: int,
}

impl ChunksView {
    /// What always holds of a manager: no queue is over its cap or holds a
    /// position twice, no position waits to be loaded while it is resident,
    /// and the pools can take back whatever is resident.
    pub open spec fn wf(self) -> bool {
        &&& self.data.dom().finite()
        &&& self.meshes.dom().finite()
        &&& self.meshes.dom().len() <= DEFAULT_MAX_MESH_DATAS
        &&& self.data_load_queue.len() <= MAX_DATA_QUEUE
        &&& self.mesh_load_queue.len() <= MAX_MESH_QUEUE
        &&& self.data_unload_queue.len() <= MAX_DATA_UNLOAD_QUEUE
        &&& self.mesh_unload_queue.len() <= MAX_MESH_UNLOAD_QUEUE
        &&& self.data_load_queue.no_duplicates()
        &&& self.mesh_load_queue.no_duplicates()
        &&& self.data_unload_queue.no_duplicates()
        &&& self.mesh_unload_queue.no_duplicates()
        &&& forall|i: int|
            0 <= i < self.data_load_queue.len() ==> !self.data.contains_key(
                #[trigger] self.data_load_queue[i],
            )
        &&& forall|i: int|
            0 <= i < self.mesh_load_queue.len() ==> !self.meshes.contains_key(
                #[trigger] self.mesh_load_queue[i],
            )
        &&& 0 <= self.render_distance <= MAX_RENDER_DISTANCE
        &&& self.free_chunks + self.data.dom().len() <= usize::MAX
        &&& self.free_meshes + self.meshes.dom().len() <= usize::MAX
    }

    /// Whether the chunk at `p` and the six chunks around it are resident.
    pub open spec fn is_surrounded(self, p: ChunkPosition) -> bool {
        &&& self.data.contains_key(p)
        &&& forall|i: int| 0 <= i < 6 ==> self.data.contains_key(#[trigger] p.neighbors()[i])
    }

    /// The test for a position to be generated: it is not resident, and it is
    /// in range.
    pub open spec fn wants_data(self) -> spec_fn(ChunkPosition) -> bool {
        |p: ChunkPosition|
            !self.data.contains_key(p) && within_range(self.position, self.render_distance, p)
    }

    /// The test for a position to be meshed: it has no mesh, it is in range,
    /// and it is resident together with its six neighbours.
    pub open spec fn wants_mesh(self) -> spec_fn(ChunkPosition) -> bool {
        |p: ChunkPosition|
            !self.meshes.contains_key(p) && within_range(self.position, self.render_distance, p)
                && self.is_surrounded(p)
    }

    /// The test of a refresh: that for a position to be meshed, or that for
    /// it to be generated.
    pub open spec fn wants(self, for_mesh: bool) -> spec_fn(ChunkPosition) -> bool {
        if for_mesh {
            self.wants_mesh()
        } else {
            self.wants_data()
        }
    }

    /// The cube of positions that a refresh of a load queue walks.
    pub open spec fn walk(self) -> Seq<ChunkPosition> {
        neighborhood(self.position.chunk(), self.render_distance)
    }

    /// The queue of positions to generate, after a refresh.
    pub open spec fn refreshed_data_load_queue(self) -> Seq<ChunkPosition> {
        if self.data.dom().len() >= DEFAULT_MAX_CHUNK_DATAS {
            self.data_load_queue
        } else {
            refreshed(self.data_load_queue, self.walk(), self.wants_data(), MAX_DATA_QUEUE as nat)
        }
    }

    /// The queue of positions to mesh, after a refresh.
    pub open spec fn refreshed_mesh_load_queue(self) -> Seq<ChunkPosition> {
        if self.meshes.dom().len() >= DEFAULT_MAX_MESH_DATAS {
            self.mesh_load_queue
        } else {
            refreshed(self.mesh_load_queue, self.walk(), self.wants_mesh(), MAX_MESH_QUEUE as nat)
        }
    }
}

/// Owns the resident chunks and meshes, the queues of work, and the pools
/// that chunks and meshes come from and go back to.
pub struct Chunks {
    chunk_data_map: HashMap<u128, Chunk>,
    chunk_mesh_map: HashMap<u128, ChunkMesh>,
    chunk_pool: ChunkPool,
    chunk_mesh_pool: ChunkMeshPool,
    chunk_data_load_queue: VecDeque<ChunkPosition>,
    chunk_mesh_load_queue: VecDeque<ChunkPosition>,
    chunk_data_unload_queue: VecDeque<ChunkPosition>,
    chunk_mesh_unload_queue: VecDeque<ChunkPosition>,
    position: ObserverPosition,
    render_distance: i32,
}

impl View for Chunks {
    type V = ChunksView;

    closed spec fn view(&self) -> ChunksView {
        ChunksView {
            data: positions_of(self.chunk_data_map@),
            meshes: positions_of(self.chunk_mesh_map@),
            data_load_queue: self.chunk_data_load_queue@,
            mesh_load_queue: self.chunk_mesh_load_queue@,
            data_unload_queue: self.chunk_data_unload_queue@,
            mesh_unload_queue: self.chunk_mesh_unload_queue@,
            free_chunks: self.chunk_pool.free(),
            free_meshes: self.chunk_mesh_pool.free(),
            position: self.position,
            render_distance: self.render_distance as int,
        }
    }
}

/// Whether `queue` holds `p`.
fn queue_contains(queue: &VecDeque<ChunkPosition>, p: &ChunkPosition) -> (found: bool)
    ensures
        found == queue@.contains(*p),
{
    let mut i: usize = 0;
    while i < queue.len()
        invariant
            i <= queue@.len(),
            forall|j: int| 0 <= j < i ==> queue@[j] != *p,
        decreases queue@.len() - i,
    {
        if queue[i] == *p {
            return true;
        }
        i += 1;
    }
    false
}

/// The whole number of `SIZE`s in `l`, rounded down.
fn chunk_steps(l: i32) -> (steps: i64)
    ensures
        steps == l as int / 16,
{
    let wide: i64 = l as i64;
    if wide >= 0 {
        wide / 16
    } else {
        -((15 - wide) / 16)
    }
}

impl Chunks {
    /// Whether the hash maps hold keys of positions only.
    pub closed spec fn keys_wf(&self) -> bool {
        &&& keys_valid(self.chunk_data_map@)
        &&& keys_valid(self.chunk_mesh_map@)
    }

    /// What always holds of a manager; see `ChunksView::wf`.
    pub open spec fn wf(&self) -> bool {
        self.keys_wf() && self@.wf()
    }

    /// The view of a new manager.
    pub open spec fn new_view() -> ChunksView {
        ChunksView {
            data: Map::empty(),
            meshes: Map::empty(),
            data_load_queue: Seq::empty(),
            mesh_load_queue: Seq::empty(),
            data_unload_queue: Seq::empty(),
            mesh_unload_queue: Seq::empty(),
            free_chunks: DEFAULT_MAX_CHUNK_DATAS as nat,
            free_meshes: DEFAULT_MAX_MESH_DATAS as nat,
            position: ObserverPosition { x: 0, y: 0, z: 0 },
            render_distance: RENDER_DIST_RADIUS as int,
        }
    }

    /// An empty manager with the default render distance, its queues and
    /// pools sized to their caps.
    pub fn new() -> (chunks: Self)
        ensures
            chunks.wf(),
            chunks@ == Chunks::new_view(),
    {
        let chunks = Self {
            chunk_data_map: HashMap::with_capacity(DEFAULT_MAX_CHUNK_DATAS),
            chunk_mesh_map: HashMap::with_capacity(DEFAULT_MAX_MESH_DATAS),
            chunk_pool: ChunkPool::with_starting_size(DEFAULT_MAX_CHUNK_DATAS),
            chunk_mesh_pool: ChunkMeshPool::with_starting_size(DEFAULT_MAX_MESH_DATAS),
            chunk_data_load_queue: VecDeque::with_capacity(MAX_DATA_QUEUE),
            chunk_mesh_load_queue: VecDeque::with_capacity(MAX_MESH_QUEUE),
            chunk_data_unload_queue: VecDeque::with_capacity(MAX_DATA_QUEUE),
            chunk_mesh_unload_queue: VecDeque::with_capacity(MAX_MESH_QUEUE),
            position: ObserverPosition { x: 0, y: 0, z: 0 },
            render_distance: RENDER_DIST_RADIUS,
        };
        proof {
            lemma_positions_empty::<Chunk>();
            lemma_positions_empty::<ChunkMesh>();
        }
        chunks
    }

    /// An empty manager with the given render distance, where that lies
    /// between zero and `MAX_RENDER_DISTANCE`.
    pub fn with_render_distance(render_distance: i32) -> (made: Option<Self>)
        ensures
            made is Some <==> 0 <= render_distance <= MAX_RENDER_DISTANCE,
            made matches Some(chunks) ==> chunks.wf() && chunks@ == (ChunksView {
                render_distance: render_distance as int,
                ..Chunks::new_view()
            }),
    {
        if render_distance < 0 || render_distance > MAX_RENDER_DISTANCE {
            return None;
        }
        let mut chunks = Self::new();
        chunks.render_distance = render_distance;
        Some(chunks)
    }

    /// Moves the observer; nothing else changes until the next refresh.
    pub fn set_observer_position(&mut self, position: ObserverPosition)
        requires
            old(self).wf(),
        ensures
            final(self).wf(),
            final(self)@ == (ChunksView { position, ..old(self)@ }),
    {
        self.position = position;
    }

    pub fn is_chunk_processing(&self, chunk_pos: &ChunkPosition) -> (processing: bool)
        ensures
            processing == (self@.data.contains_key(*chunk_pos) || self@.data_load_queue.contains(
                *chunk_pos,
            )),
    {
        self.chunk_data_map.contains_key(&chunk_pos.to_key()) || queue_contains(
            &self.chunk_data_load_queue,
            chunk_pos,
        )
    }

    pub fn is_mesh_processing(&self, chunk_pos: &ChunkPosition) -> (processing: bool)
        ensures
            processing == (self@.meshes.contains_key(*chunk_pos) || self@.mesh_load_queue.contains(
                *chunk_pos,
            )),
    {
        self.chunk_mesh_map.contains_key(&chunk_pos.to_key()) || queue_contains(
            &self.chunk_mesh_load_queue,
            chunk_pos,
        )
    }

    /// The world position of the chunk's corner with the smallest
    /// coordinates.
    pub fn chunk_to_world(chunk_pos: ChunkPosition) -> (world: WorldPosition)
        ensures
            world == chunk_pos.world(),
    {
        WorldPosition {
            x: chunk_pos.x as i64 * 16,
            y: chunk_pos.y as i64 * 16,
            z: chunk_pos.z as i64 * 16,
        }
    }

    /// Whether the centre of the chunk is closer to the observer than the
    /// render distance.
    pub fn in_range(&self, chunk_pos: ChunkPosition) -> (near: bool)
        requires
            self.wf(),
        ensures
            near == within_range(self@.position, self@.render_distance, chunk_pos),
    {
        let dx: i128 = self.position.x as i128 - (chunk_pos.x as i128 * 16 + 8);
        let dy: i128 = self.position.y as i128 - (chunk_pos.y as i128 * 16 + 8);
        let dz: i128 = self.position.z as i128 - (chunk_pos.z as i128 * 16 + 8);
        let reach: i128 = self.render_distance as i128 * 16;
        assert(0 <= dx * dx <= 0x100_0000_0000_0000_0000_0000) by (nonlinear_arith)
            requires
                -0x10_0000_0000 <= dx <= 0x10_0000_0000,
        ;
        assert(0 <= dy * dy <= 0x100_0000_0000_0000_0000_0000) by (nonlinear_arith)
            requires
                -0x10_0000_0000 <= dy <= 0x10_0000_0000,
        ;
        assert(0 <= dz * dz <= 0x100_0000_0000_0000_0000_0000) by (nonlinear_arith)
            requires
                -0x10_0000_0000 <= dz <= 0x10_0000_0000,
        ;
        assert(0 <= reach * reach <= 0x1_0000_0000) by (nonlinear_arith)
            requires
                0 <= reach <= 0x1_0000,
        ;
        let distance_sq: i128 = dx * dx + dy * dy + dz * dz;
        distance_sq < reach * reach
    }

    /// Whether `make_coords_valid` can walk `local_pos` into a chunk of the
    /// grid.
    pub fn can_make_coords_valid(chunk_pos: &ChunkPosition, local_pos: &LocalCoordinate) -> (ok:
        bool)
        ensures
            ok == can_normalize(*chunk_pos, *local_pos),
    {
        let x: i64 = chunk_pos.x as i64 + chunk_steps(local_pos.0);
        let y: i64 = chunk_pos.y as i64 + chunk_steps(local_pos.1);
        let z: i64 = chunk_pos.z as i64 + chunk_steps(local_pos.2);
        i32::MIN as i64 <= x && x <= i32::MAX as i64 && i32::MIN as i64 <= y && y <= i32::MAX as i64
            && i32::MIN as i64 <= z && z <= i32::MAX as i64
    }

    /// Walks a local coordinate that left its chunk into the chunk that holds
    /// it: for every `SIZE` voxels along an axis the chunk position moves by
    /// one, until the local coordinate is inside a chunk again.
    pub fn make_coords_valid(chunk_pos: &mut ChunkPosition, local_pos: &mut LocalCoordinate)
        requires
            can_normalize(*old(chunk_pos), *old(local_pos)),
        ensures
            *final(chunk_pos) == normalized_chunk(*old(chunk_pos), *old(local_pos)),
            *final(local_pos) == normalized_local(*old(local_pos)),
            final(local_pos).in_bounds(),
    {
        let chunk_size: i32 = 16;
        while local_pos.0 < 0
            invariant
                chunk_size == 16,
                chunk_pos.x * 16 + local_pos.0 == old(chunk_pos).x * 16 + old(local_pos).0,
                old(local_pos).0 <= local_pos.0,
                old(local_pos).0 < 0 ==> local_pos.0 < 16,
                can_normalize(*old(chunk_pos), *old(local_pos)),
                chunk_pos.y == old(chunk_pos).y,
                chunk_pos.z == old(chunk_pos).z,
                local_pos.1 == old(local_pos).1,
                local_pos.2 == old(local_pos).2,
            decreases 15 - local_pos.0,
        {
            local_pos.0 += chunk_size;
            chunk_pos.x -= 1;
        }
        while local_pos.0 >= chunk_size
            invariant
                chunk_size == 16,
                chunk_pos.x * 16 + local_pos.0 == old(chunk_pos).x * 16 + old(local_pos).0,
                0 <= local_pos.0,
                can_normalize(*old(chunk_pos), *old(local_pos)),
                chunk_pos.y == old(chunk_pos).y,
                chunk_pos.z == old(chunk_pos).z,
                local_pos.1 == old(local_pos).1,
                local_pos.2 == old(local_pos).2,
            decreases local_pos.0,
        {
            local_pos.0 -= chunk_size;
            chunk_pos.x += 1;
        }
        while local_pos.1 < 0
            invariant
                chunk_size == 16,
                chunk_pos.y * 16 + local_pos.1 == old(chunk_pos).y * 16 + old(local_pos).1,
                old(local_pos).1 <= local_pos.1,
                old(local_pos).1 < 0 ==> local_pos.1 < 16,
                can_normalize(*old(chunk_pos), *old(local_pos)),
                chunk_pos.x == old(chunk_pos).x + old(local_pos).0 / 16,
                local_pos.0 == old(local_pos).0 % 16,
                chunk_pos.z == old(chunk_pos).z,
                local_pos.2 == old(local_pos).2,
            decreases 15 - local_pos.1,
        {
            local_pos.1 += chunk_size;
            chunk_pos.y -= 1;
        }
        while local_pos.1 >= chunk_size
            invariant
                chunk_size == 16,
                chunk_pos.y * 16 + local_pos.1 == old(chunk_pos).y * 16 + old(local_pos).1,
                0 <= local_pos.1,
                can_normalize(*old(chunk_pos), *old(local_pos)),
                chunk_pos.x == old(chunk_pos).x + old(local_pos).0 / 16,
                local_pos.0 == old(local_pos).0 % 16,
                chunk_pos.z == old(chunk_pos).z,
                local_pos.2 == old(local_pos).2,
            decreases local_pos.1,
        {
            local_pos.1 -= chunk_size;
            chunk_pos.y += 1;
        }
        while local_pos.2 < 0
            invariant
                chunk_size == 16,
                chunk_pos.z * 16 + local_pos.2 == old(chunk_pos).z * 16 + old(local_pos).2,
                old(local_pos).2 <= local_pos.2,
                old(local_pos).2 < 0 ==> local_pos.2 < 16,
                can_normalize(*old(chunk_pos), *old(local_pos)),
                chunk_pos.x == old(chunk_pos).x + old(local_pos).0 / 16,
                local_pos.0 == old(local_pos).0 % 16,
                chunk_pos.y == old(chunk_pos).y + old(local_pos).1 / 16,
                local_pos.1 == old(local_pos).1 % 16,
            decreases 15 - local_pos.2,
        {
            local_pos.2 += chunk_size;
            chunk_pos.z -= 1;
        }
        while local_pos.2 >= chunk_size
            invariant
                chunk_size == 16,
                chunk_pos.z * 16 + local_pos.2 == old(chunk_pos).z * 16 + old(local_pos).2,
                0 <= local_pos.2,
                can_normalize(*old(chunk_pos), *old(local_pos)),
                chunk_pos.x == old(chunk_pos).x + old(local_pos).0 / 16,
                local_pos.0 == old(local_pos).0 % 16,
                chunk_pos.y == old(chunk_pos).y + old(local_pos).1 / 16,
                local_pos.1 == old(local_pos).1 % 16,
            decreases local_pos.2,
        {
            local_pos.2 -= chunk_size;
            chunk_pos.z += 1;
        }
    }

    /// The voxel at `local_pos`, counted from the corner of `chunk_pos`. A
    /// coordinate outside the chunk is looked up in the chunk that holds it.
    pub fn try_get_voxel(&self, chunk_pos: &ChunkPosition, local_pos: &LocalCoordinate) -> (found:
        Result<&Voxel, ChunkError>)
        requires
            self.wf(),
        ensures
            match found {
                Ok(voxel) => voxel_at(self@.data, *chunk_pos, *local_pos) == Some(*voxel),
                Err(e) => e == ChunkError::NotFound && voxel_at(self@.data, *chunk_pos, *local_pos)
                    is None,
            },
    {
        let mut chunk_pos = *chunk_pos;
        let mut local_pos = *local_pos;
        if !Self::can_make_coords_valid(&chunk_pos, &local_pos) {
            return Err(ChunkError::NotFound);
        }
        Self::make_coords_valid(&mut chunk_pos, &mut local_pos);
        match self.chunk_data_map.get(&chunk_pos.to_key()) {
            Some(chunk) => match chunk.get_voxel(local_pos) {
                Some(voxel) => Ok(voxel),
                None => Err(ChunkError::NotFound),
            },
            None => Err(ChunkError::NotFound),
        }
    }
}

impl Chunks {
    /// The positions of the resident chunks, each once, in no set order.
    pub fn resident_data_positions(&self) -> (positions: Vec<ChunkPosition>)
        requires
            self.wf(),
        ensures
            positions@.no_duplicates(),
            forall|p: ChunkPosition|
                positions@.contains(p) <==> #[trigger] self@.data.contains_key(p),
    {
        positions_in(&self.chunk_data_map)
    }

    /// The positions of the resident meshes, each once, in no set order.
    pub fn resident_mesh_positions(&self) -> (positions: Vec<ChunkPosition>)
        requires
            self.wf(),
        ensures
            positions@.no_duplicates(),
            forall|p: ChunkPosition|
                positions@.contains(p) <==> #[trigger] self@.meshes.contains_key(p),
    {
        positions_in(&self.chunk_mesh_map)
    }

    /// Whether the chunk lies outside the cube of the render distance around
    /// the chunk the observer stands in.
    pub fn is_outside_box(&self, chunk_pos: &ChunkPosition) -> (outside: bool)
        requires
            self.wf(),
        ensures
            outside == outside_box(self@.position, self@.render_distance, *chunk_pos),
    {
        let center = self.position.current_chunk();
        let r = self.render_distance;
        chunk_pos.x < center.x - r || chunk_pos.x > center.x + r || chunk_pos.y < center.y - r
            || chunk_pos.y > center.y + r || chunk_pos.z < center.z - r || chunk_pos.z > center.z
            + r
    }
}

/// The coordinate one voxel to the left of `cell`, along x.
pub open spec fn left_of(cell: LocalCoordinate) -> LocalCoordinate {
    LocalCoordinate((cell.0 - 1) as i32, cell.1, cell.2)
}

/// The coordinate one voxel below `cell`, along y.
pub open spec fn down_of(cell: LocalCoordinate) -> LocalCoordinate {
    LocalCoordinate(cell.0, (cell.1 - 1) as i32, cell.2)
}

/// The coordinate one voxel behind `cell`, along z.
pub open spec fn back_of(cell: LocalCoordinate) -> LocalCoordinate {
    LocalCoordinate(cell.0, cell.1, (cell.2 - 1) as i32)
}

/// The voxel at `local_pos` of the chunk at `chunk_pos` with its three
/// neighbours on the negative side, in the order: the voxel, the one behind
/// it, the one to its left, the one below it. All four must be resident.
pub fn adjacent_voxels<'a>(
    chunks: &'a Chunks,
    local_pos: (i32, i32, i32),
    chunk_pos: &ChunkPosition,
) -> (found: Result<(&'a Voxel, &'a Voxel, &'a Voxel, &'a Voxel), ChunkError>)
    requires
        chunks.wf(),
        local_pos.0 > i32::MIN,
        local_pos.1 > i32::MIN,
        local_pos.2 > i32::MIN,
    ensures
        ({
            let cell = LocalCoordinate(local_pos.0, local_pos.1, local_pos.2);
            let data = chunks@.data;
            match found {
                Ok((voxel, back, left, down)) => {
                    &&& voxel_at(data, *chunk_pos, cell) == Some(*voxel)
                    &&& voxel_at(data, *chunk_pos, back_of(cell)) == Some(*back)
                    &&& voxel_at(data, *chunk_pos, left_of(cell)) == Some(*left)
                    &&& voxel_at(data, *chunk_pos, down_of(cell)) == Some(*down)
                },
                Err(e) => {
                    &&& e == ChunkError::NotFound
                    &&& (voxel_at(data, *chunk_pos, cell) is None || voxel_at(
                        data,
                        *chunk_pos,
                        back_of(cell),
                    ) is None || voxel_at(data, *chunk_pos, left_of(cell)) is None || voxel_at(
                        data,
                        *chunk_pos,
                        down_of(cell),
                    ) is None)
                },
            }
        }),
{
    let (x, y, z) = (local_pos.0, local_pos.1, local_pos.2);
    let voxel = match chunks.try_get_voxel(chunk_pos, &LocalCoordinate(x, y, z)) {
        Ok(v) => v,
        Err(e) => {
            return Err(e);
        },
    };
    let back = match chunks.try_get_voxel(chunk_pos, &LocalCoordinate(x, y, z - 1)) {
        Ok(v) => v,
        Err(e) => {
            return Err(e);
        },
    };
    let left = match chunks.try_get_voxel(chunk_pos, &LocalCoordinate(x - 1, y, z)) {
        Ok(v) => v,
        Err(e) => {
            return Err(e);
        },
    };
    let down = match chunks.try_get_voxel(chunk_pos, &LocalCoordinate(x, y - 1, z)) {
        Ok(v) => v,
        Err(e) => {
            return Err(e);
        },
    };
    Ok((voxel, back, left, down))
}

/// The contents of a queue, front first.
fn queue_to_vec(queue: &VecDeque<ChunkPosition>) -> (items: Vec<ChunkPosition>)
    ensures
        items@ == queue@,
{
    let mut items: Vec<ChunkPosition> = Vec::new();
    let mut i: usize = 0;
    while i < queue.len()
        invariant
            i <= queue@.len(),
            items@ == queue@.take(i as int),
        decreases queue@.len() - i,
    {
        items.push(queue[i]);
        assert(items@ =~= queue@.take(i + 1));
        i += 1;
    }
    assert(queue@.take(i as int) =~= queue@);
    items
}

impl Chunks {
    /// The positions that wait to be generated, front first.
    pub fn data_load_queue(&self) -> (queue: Vec<ChunkPosition>)
        ensures
            queue@ == self@.data_load_queue,
    {
        queue_to_vec(&self.chunk_data_load_queue)
    }

    /// The positions that wait to be meshed, front first.
    pub fn mesh_load_queue(&self) -> (queue: Vec<ChunkPosition>)
        ensures
            queue@ == self@.mesh_load_queue,
    {
        queue_to_vec(&self.chunk_mesh_load_queue)
    }

    /// The positions whose chunk waits to be evicted, front first.
    pub fn data_unload_queue(&self) -> (queue: Vec<ChunkPosition>)
        ensures
            queue@ == self@.data_unload_queue,
    {
        queue_to_vec(&self.chunk_data_unload_queue)
    }

    /// The positions whose mesh waits to be evicted, front first.
    pub fn mesh_unload_queue(&self) -> (queue: Vec<ChunkPosition>)
        ensures
            queue@ == self@.mesh_unload_queue,
    {
        queue_to_vec(&self.chunk_mesh_unload_queue)
    }

    /// The resident chunk at `chunk_pos`.
    pub fn get_chunk(&self, chunk_pos: &ChunkPosition) -> (chunk: Option<&Chunk>)
        ensures
            chunk == if self@.data.contains_key(*chunk_pos) {
                Some(&self@.data[*chunk_pos])
            } else {
                None
            },
    {
        self.chunk_data_map.get(&chunk_pos.to_key())
    }

    /// The resident mesh at `chunk_pos`.
    pub fn get_chunk_mesh(&self, chunk_pos: &ChunkPosition) -> (mesh: Option<&ChunkMesh>)
        ensures
            mesh == if self@.meshes.contains_key(*chunk_pos) {
                Some(&self@.meshes[*chunk_pos])
            } else {
                None
            },
    {
        self.chunk_mesh_map.get(&chunk_pos.to_key())
    }

    /// The number of chunks that lie free in the pool.
    pub fn free_chunk_count(&self) -> (n: usize)
        ensures
            n == self@.free_chunks,
    {
        self.chunk_pool.size()
    }

    /// The number of meshes that lie free in the pool.
    pub fn free_mesh_count(&self) -> (n: usize)
        ensures
            n == self@.free_meshes,
    {
        self.chunk_mesh_pool.size()
    }

    /// Where the observer stands.
    pub fn position(&self) -> (position: ObserverPosition)
        ensures
            position == self@.position,
    {
        self.position
    }

    /// The render distance, in chunks.
    pub fn render_distance(&self) -> (r: i32)
        ensures
            r == self@.render_distance,
    {
        self.render_distance
    }
}

} // verus!
