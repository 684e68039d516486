//! A chunk: a cube of `SIZE` voxels along each edge, the unit in which the
//! world is generated, meshed and evicted.

use crate::voxel_tools::position::toward_zero_div;
use crate::voxel_tools::position::toward_zero_rem;
use crate::voxel_tools::position::WorldPosition;
use crate::voxel_tools::position::BIT_SIZE;
use crate::voxel_tools::position::VOLUME;
use crate::voxel_tools::voxel::Density;
use crate::voxel_tools::voxel::Voxel;
use generational_arena::Index;
use vstd::prelude::*;

verus! {

/// The place of a voxel inside its chunk. Each coordinate of a voxel of the
/// chunk lies in `0..SIZE`; a probe of a neighbour may step outside.
#[derive(Debug, Clone, Copy, PartialEq, Eq, Structural)]
pub struct LocalCoordinate(pub i32, pub i32, pub i32);

impl LocalCoordinate {
    /// Whether the coordinate names a voxel of the chunk itself.
    pub open spec fn in_bounds(self) -> bool {
        &&& 0 <= self.0 < 16
        &&& 0 <= self.1 < 16
        &&& 0 <= self.2 < 16
    }

    /// The place of the voxel in the chunk's storage: x counts 256, y counts
    /// 16, z counts 1.
    pub open spec fn index(self) -> int {
        self.0 * 256 + self.1 * 16 + self.2
    }

    /// The coordinate stored at place `i`, for `i` in `0..VOLUME`.
    pub open spec fn of_index(i: int) -> LocalCoordinate {
        LocalCoordinate((i / 256) as i32, ((i / 16) % 16) as i32, (i % 16) as i32)
    }

    /// The coordinate that division and remainder by `SIZE`, both rounding
    /// toward zero, make of any place `i`; on `0..VOLUME` it is `of_index`.
    pub open spec fn at_place(i: int) -> LocalCoordinate {
        LocalCoordinate(
            toward_zero_div(i, 256) as i32,
            toward_zero_rem(toward_zero_div(i, 16), 16) as i32,
            toward_zero_rem(i, 16) as i32,
        )
    }

    pub fn is_in_bounds(&self) -> (b: bool)
        ensures
            b == self.in_bounds(),
    {
        0 <= self.0 && self.0 < 16 && 0 <= self.1 && self.1 < 16 && 0 <= self.2 && self.2 < 16
    }
}

/// The buffers that hold a chunk's faces on the graphics device, with their
/// sizes. A mesh without handles marks a chunk whose faces are being built,
/// or one that has none.
pub struct ChunkMesh {
    pub vertex_buffer: Option<Index>,
    pub index_buffer: Option<Index>,
    pub num_indices: u32,
    pub num_vertices: u32,
}

impl ChunkMesh {
    /// Whether the mesh is in the state of a new one: no handles, no counts.
    pub open spec fn is_blank(&self) -> bool {
        &&& self.vertex_buffer is None
        &&& self.index_buffer is None
        &&& self.num_indices == 0
        &&& self.num_vertices == 0
    }

    /// Whether both handles are set, so that the mesh can be drawn.
    pub open spec fn is_complete(&self) -> bool {
        self.vertex_buffer is Some && self.index_buffer is Some
    }

    pub fn new() -> (mesh: Self)
        ensures
            mesh.is_blank(),
    {
        Self { vertex_buffer: None, index_buffer: None, num_indices: 0, num_vertices: 0 }
    }

    pub fn update_vertex_buffers(
        &mut self,
        vertex_buffer: Index,
        index_buffer: Index,
        num_indices: u32,
        num_vertices: u32,
    )
        ensures
            final(self).vertex_buffer == Some(vertex_buffer),
            final(self).index_buffer == Some(index_buffer),
            final(self).num_indices == num_indices,
            final(self).num_vertices == num_vertices,
    {
        self.vertex_buffer = Some(vertex_buffer);
        self.index_buffer = Some(index_buffer);
        self.num_indices = num_indices;
        self.num_vertices = num_vertices;
    }

    /// Puts the mesh back into the state of a new one.
    pub fn clear(&mut self)
        ensures
            final(self).is_blank(),
    {
        self.vertex_buffer = None;
        self.index_buffer = None;
        self.num_indices = 0u32;
        self.num_vertices = 0u32;
    }
}

impl lifeguard::Recycleable for ChunkMesh {
    fn new() -> (mesh: Self)
        ensures
            mesh.is_blank(),
    {
        ChunkMesh::new()
    }

    fn reset(&mut self)
        ensures
            final(self).is_blank(),
    {
        self.clear();
    }
}

/// The voxels of one chunk, stored x-major: the voxel at local `(x, y, z)`
/// sits at place `x * 256 + y * 16 + z`.
pub struct Chunk {
    pub voxels: [Voxel; VOLUME],
}

/// What one sample of the terrain did to one voxel: a sample that came back
/// solid made the voxel fully solid, any other left it as it was.
pub open spec fn sampled<F: Fn(i64, i64, i64) -> bool>(
    is_solid_at: &F,
    at: WorldPosition,
    before: Voxel,
    after: Voxel,
) -> bool {
    ||| is_solid_at.ensures((at.x, at.y, at.z), true) && after.spec_density() == 255
    ||| is_solid_at.ensures((at.x, at.y, at.z), false) && after == before
}

/// What one sample of the terrain made of an empty voxel: fully solid where
/// the sample came back solid, empty otherwise.
pub open spec fn sampled_into_empty<F: Fn(i64, i64, i64) -> bool>(
    is_solid_at: &F,
    at: WorldPosition,
    after: Voxel,
) -> bool {
    ||| is_solid_at.ensures((at.x, at.y, at.z), true) && after.spec_density() == 255
    ||| is_solid_at.ensures((at.x, at.y, at.z), false) && after.spec_density() == 0
}

/// Whether the sampler gives each point of the world one answer only.
pub open spec fn is_deterministic<F: Fn(i64, i64, i64) -> bool>(is_solid_at: &F) -> bool {
    forall|x: i64, y: i64, z: i64|
        !(#[trigger] is_solid_at.ensures((x, y, z), true) && is_solid_at.ensures((x, y, z), false))
}

impl Chunk {
    /// The voxels in storage order.
    pub open spec fn view(&self) -> Seq<Voxel> {
        self.voxels@
    }

    /// Whether every voxel of the chunk is empty.
    pub open spec fn is_blank(&self) -> bool {
        forall|i: int| 0 <= i < 4096 ==> (#[trigger] self.voxels[i]).spec_density() == 0
    }

    /// The world position of the voxel stored at place `i` of a chunk whose
    /// smallest corner is at `origin`.
    pub open spec fn world_of(origin: WorldPosition, i: int) -> WorldPosition {
        WorldPosition {
            x: (origin.x + LocalCoordinate::of_index(i).0) as i64,
            y: (origin.y + LocalCoordinate::of_index(i).1) as i64,
            z: (origin.z + LocalCoordinate::of_index(i).2) as i64,
        }
    }

    /// Whether `after` is `before` with every voxel sampled at its own world
    /// position.
    pub open spec fn generated_from<F: Fn(i64, i64, i64) -> bool>(
        before: Chunk,
        after: Chunk,
        origin: WorldPosition,
        is_solid_at: &F,
    ) -> bool {
        forall|i: int|
            0 <= i < 4096 ==> sampled(
                is_solid_at,
                Chunk::world_of(origin, i),
                #[trigger] before.voxels[i],
                after.voxels[i],
            )
    }

    /// Whether the chunk is what sampling every voxel of an empty chunk at
    /// its own world position leaves: fully solid where the sample said so,
    /// empty elsewhere.
    pub open spec fn generated_at<F: Fn(i64, i64, i64) -> bool>(
        &self,
        origin: WorldPosition,
        is_solid_at: &F,
    ) -> bool {
        forall|i: int|
            0 <= i < 4096 ==> sampled_into_empty(
                is_solid_at,
                Chunk::world_of(origin, i),
                #[trigger] self.voxels[i],
            )
    }

    /// Packs a local coordinate into its place in storage.
    pub fn get_index(coordinate: LocalCoordinate) -> (i: usize)
        requires
            coordinate.in_bounds(),
        ensures
            i == coordinate.index(),
            i < 4096,
    {
        let x: i32 = coordinate.0;
        let y: i32 = coordinate.1;
        let z: i32 = coordinate.2;
        let packed: i32 = z | (y << BIT_SIZE) | (x << (BIT_SIZE * 2));
        assert(z | (y << 4i32) | (x << 8i32) == x * 256 + y * 16 + z) by (bit_vector)
            requires
                0 <= x < 16,
                0 <= y < 16,
                0 <= z < 16,
        ;
        packed as usize
    }

    /// The local coordinate stored at place `index`.
    pub fn get_local_coordinate(index: i32) -> (c: LocalCoordinate)
        ensures
            c == LocalCoordinate::at_place(index as int),
            0 <= index < 4096 ==> c == LocalCoordinate::of_index(index as int) && c.in_bounds(),
    {
        LocalCoordinate(index / 256, (index / 16) % 16, index % 16)
    }

    pub fn get_voxel(&self, coordinate: LocalCoordinate) -> (v: Option<&Voxel>)
        ensures
            v == if coordinate.in_bounds() {
                Some(&self.voxels[coordinate.index()])
            } else {
                None
            },
    {
        if !coordinate.is_in_bounds() {
            return None;
        }
        let index = Self::get_index(coordinate);
        self.get_voxel_from_index(index)
    }

    pub fn get_voxel_from_index(&self, index: usize) -> (v: Option<&Voxel>)
        ensures
            v == if index < 4096 {
                Some(&self.voxels[index as int])
            } else {
                None
            },
    {
        if index < VOLUME {
            Some(&self.voxels[index])
        } else {
            None
        }
    }

    pub fn get_voxel_from_index_mut(&mut self, index: usize) -> (v: Option<&mut Voxel>)
        ensures
            match v {
                Some(voxel) => {
                    &&& index < 4096
                    &&& *voxel == old(self).voxels[index as int]
                    &&& final(self).voxels@ == old(self).voxels@.update(index as int, *final(voxel))
                },
                None => index >= 4096 && *final(self) == *old(self),
            },
    {
        if index < VOLUME {
            Some(&mut self.voxels[index])
        } else {
            None
        }
    }

    pub fn new() -> (chunk: Self)
        ensures
            chunk.is_blank(),
    {
        let chunk = Self { voxels: [Voxel::new_empty(); VOLUME] };
        chunk
    }

    /// Empties every voxel.
    pub fn clear(&mut self)
        ensures
            final(self).is_blank(),
    {
        let mut i: usize = 0;
        while i < VOLUME
            invariant
                i <= 4096,
                forall|j: int| 0 <= j < i ==> (#[trigger] self.voxels[j]).spec_density() == 0,
            decreases 4096 - i,
        {
            self.voxels[i].set_density(Density(0u8));
            i += 1;
        }
    }

    /// Fills the chunk from the terrain: every voxel is sampled once, at its
    /// own world position, and made fully solid where the sample says so.
    pub fn build_voxel_data<F: Fn(i64, i64, i64) -> bool>(
        &mut self,
        chunk_world_pos: &WorldPosition,
        is_solid_at: &F,
    )
        requires
            forall|x: i64, y: i64, z: i64| is_solid_at.requires((x, y, z)),
            chunk_world_pos.x <= i64::MAX - 16,
            chunk_world_pos.y <= i64::MAX - 16,
            chunk_world_pos.z <= i64::MAX - 16,
        ensures
            Chunk::generated_from(*old(self), *final(self), *chunk_world_pos, is_solid_at),
    {
        let mut index: usize = 0;
        while index < VOLUME
            invariant
                index <= 4096,
                forall|x: i64, y: i64, z: i64| is_solid_at.requires((x, y, z)),
                chunk_world_pos.x <= i64::MAX - 16,
                chunk_world_pos.y <= i64::MAX - 16,
                chunk_world_pos.z <= i64::MAX - 16,
                forall|j: int|
                    0 <= j < index ==> sampled(
                        is_solid_at,
                        Chunk::world_of(*chunk_world_pos, j),
                        #[trigger] old(self).voxels[j],
                        self.voxels[j],
                    ),
                forall|j: int| index <= j < 4096 ==> self.voxels[j] == old(self).voxels[j],
            decreases 4096 - index,
        {
            let local_coord = Self::get_local_coordinate(index as i32);
            let x: i64 = chunk_world_pos.x + local_coord.0 as i64;
            let y: i64 = chunk_world_pos.y + local_coord.1 as i64;
            let z: i64 = chunk_world_pos.z + local_coord.2 as i64;
            let solid = is_solid_at(x, y, z);
            if solid {
                self.voxels[index].set_density(Density(255u8));
            }
            index += 1;
        }
    }
}

/// A coordinate inside the chunk and its place in storage name each other.
pub proof fn lemma_coordinate_round_trip(c: LocalCoordinate)
    requires
        c.in_bounds(),
    ensures
        0 <= c.index() < 4096,
        LocalCoordinate::of_index(c.index()) == c,
{
}

/// A place in storage and the coordinate kept there name each other.
pub proof fn lemma_index_round_trip(i: int)
    requires
        0 <= i < 4096,
    ensures
        LocalCoordinate::of_index(i).in_bounds(),
        LocalCoordinate::of_index(i).index() == i,
{
}

/// Generating into an empty chunk leaves a chunk that is `generated_at` its
/// origin.
pub(crate) proof fn lemma_generated_from_blank<F: Fn(i64, i64, i64) -> bool>(
    is_solid_at: &F,
    origin: WorldPosition,
    before: Chunk,
    after: Chunk,
)
    requires
        before.is_blank(),
        Chunk::generated_from(before, after, origin, is_solid_at),
    ensures
        after.generated_at(origin, is_solid_at),
{
    assert forall|i: int| 0 <= i < 4096 implies sampled_into_empty(
        is_solid_at,
        Chunk::world_of(origin, i),
        #[trigger] after.voxels[i],
    ) by {
        assert(sampled(is_solid_at, Chunk::world_of(origin, i), before.voxels[i], after.voxels[i]));
    }
}

/// Two chunks generated at one origin from equal voxels by a sampler that
/// gives each point one answer hold the same voxels.
pub proof fn lemma_generation_is_deterministic<F: Fn(i64, i64, i64) -> bool>(
    is_solid_at: &F,
    origin: WorldPosition,
    before: Chunk,
    first: Chunk,
    second: Chunk,
)
    requires
        is_deterministic(is_solid_at),
        Chunk::generated_from(before, first, origin, is_solid_at),
        Chunk::generated_from(before, second, origin, is_solid_at),
    ensures
        first@ == second@,
        forall|i: int| 0 <= i < 4096 ==> first.voxels[i].solid() == second.voxels[i].solid(),
{
    assert forall|i: int| 0 <= i < 4096 implies first.voxels[i] == second.voxels[i] by {
        let at = Chunk::world_of(origin, i);
        assert(sampled(is_solid_at, at, before.voxels[i], first.voxels[i]));
        assert(sampled(is_solid_at, at, before.voxels[i], second.voxels[i]));
        assert(!(is_solid_at.ensures((at.x, at.y, at.z), true) && is_solid_at.ensures(
            (at.x, at.y, at.z),
            false,
        )));
        crate::voxel_tools::voxel::lemma_voxel_is_its_density(first.voxels[i], second.voxels[i]);
    }
    assert(first@ =~= second@);
}

impl lifeguard::Recycleable for Chunk {
    fn new() -> (chunk: Self)
        ensures
            chunk.is_blank(),
    {
        Chunk::new()
    }

    fn reset(&mut self)
        ensures
            final(self).is_blank(),
    {
        self.clear();
    }
}

} // verus!
