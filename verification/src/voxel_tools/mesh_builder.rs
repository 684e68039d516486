//! Turns the voxels of a chunk into the faces that can be seen.
//!
//! A face is wanted wherever a solid voxel touches an empty one. The builder
//! looks at each voxel of the chunk and at its three neighbours on the
//! negative side only; the faces on a voxel's positive side come up when the
//! voxel beyond them is looked at, be it in this chunk or in the next.

use crate::color::Color;
use crate::rendering::gpu_resources::GpuBuffer;
use crate::rendering::gpu_resources::GpuResources;
use crate::voxel_tools::chunks::ChunksView;
use crate::voxel_tools::chunk::Chunk;
use crate::voxel_tools::chunk::LocalCoordinate;
use crate::voxel_tools::chunks::adjacent_voxels;
use crate::voxel_tools::chunks::back_of;
use crate::voxel_tools::chunks::down_of;
use crate::voxel_tools::chunks::left_of;
use crate::voxel_tools::chunks::voxel_at;
use crate::voxel_tools::chunks::Chunks;
use crate::voxel_tools::direction::Direction;
use crate::voxel_tools::direction::Normal;
use crate::voxel_tools::position::ChunkPosition;
use crate::voxel_tools::position::WorldPosition;
use crate::voxel_tools::quad::is_face_color;
use crate::voxel_tools::quad::quad_corners;
use crate::voxel_tools::quad::Quad;
use crate::voxel_tools::quad::QuadCorner;
use crate::voxel_tools::voxel::Voxel;
use generational_arena::Index;
use vstd::prelude::*;

verus! {

/// One face of the mesh: the voxel it belongs to, by its place in the chunk,
/// and the direction it looks in.
pub struct Face {
    pub cell: LocalCoordinate,
    pub direction: Direction,
}

/// One corner of a face as the graphics device gets it.
#[derive(Clone, Copy, Debug)]
pub struct MeshVertex {
    pub position: QuadCorner,
    pub normal: Normal,
    pub color_diffuse: Color,
}

/// The faces of a chunk as lists of corners and of triangles over them.
pub struct ChunkGeometry {
    pub vertices: Vec<MeshVertex>,
    pub indices: Vec<u32>,
}

/// The direction alone where the condition holds, nothing otherwise.
pub open spec fn face_if(wanted: bool, direction: Direction) -> Seq<Direction> {
    if wanted {
        seq![direction]
    } else {
        Seq::empty()
    }
}

/// The faces that one voxel gives rise to, from whether it and its
/// neighbours to the left, below and behind are solid. A solid voxel shows a
/// face toward each empty neighbour; an empty voxel stands in for each solid
/// neighbour, whose face toward it looks the other way.
pub open spec fn faces_of(solid: bool, left: bool, down: bool, back: bool) -> Seq<Direction> {
    if solid {
        face_if(!left, Direction::Left) + face_if(!down, Direction::Down) + face_if(
            !back,
            Direction::Back,
        )
    } else {
        face_if(left, Direction::Right) + face_if(down, Direction::Up) + face_if(
            back,
            Direction::Forward,
        )
    }
}

/// The directions of the faces of the voxel at `cell`. A voxel has faces only
/// while it and its three neighbours on the negative side are resident.
pub open spec fn cell_directions(
    data: Map<ChunkPosition, Chunk>,
    chunk: ChunkPosition,
    cell: LocalCoordinate,
) -> Seq<Direction> {
    match (
        voxel_at(data, chunk, cell),
        voxel_at(data, chunk, left_of(cell)),
        voxel_at(data, chunk, down_of(cell)),
        voxel_at(data, chunk, back_of(cell)),
    ) {
        (Some(voxel), Some(left), Some(down), Some(back)) => faces_of(
            voxel.solid(),
            left.solid(),
            down.solid(),
            back.solid(),
        ),
        _ => Seq::empty(),
    }
}

/// The faces of the voxel at `cell`.
pub open spec fn cell_faces(
    data: Map<ChunkPosition, Chunk>,
    chunk: ChunkPosition,
    cell: LocalCoordinate,
) -> Seq<Face> {
    cell_directions(data, chunk, cell).map_values(|d: Direction| Face { cell, direction: d })
}

/// The faces of the first `n` voxels of a chunk, in storage order.
pub open spec fn faces_upto(data: Map<ChunkPosition, Chunk>, chunk: ChunkPosition, n: nat) -> Seq<
    Face,
>
    decreases n,
{
    if n == 0 {
        Seq::empty()
    } else {
        faces_upto(data, chunk, (n - 1) as nat) + cell_faces(
            data,
            chunk,
            LocalCoordinate::of_index(n - 1),
        )
    }
}

/// The faces of a chunk: those of each of its voxels, in storage order.
pub open spec fn chunk_faces(data: Map<ChunkPosition, Chunk>, chunk: ChunkPosition) -> Seq<Face> {
    faces_upto(data, chunk, 4096)
}

/// The world position of the voxel at `cell` of a chunk whose smallest
/// corner is at `origin`.
pub open spec fn cell_world(origin: WorldPosition, cell: LocalCoordinate) -> WorldPosition {
    WorldPosition {
        x: (origin.x + cell.0) as i64,
        y: (origin.y + cell.1) as i64,
        z: (origin.z + cell.2) as i64,
    }
}

/// Whether a quad shows the given face of a chunk at `origin`: it looks the
/// same way, lies where the face lies, and has a face colour.
pub open spec fn quad_shows(quad: Quad, origin: WorldPosition, face: Face) -> bool {
    &&& quad.direction == face.direction
    &&& quad.corners@ == quad_corners(face.direction, cell_world(origin, face.cell))
    &&& is_face_color(quad.color)
}

/// Whether the quads show the faces, one for one and in order.
pub open spec fn quads_show(quads: Seq<Quad>, origin: WorldPosition, faces: Seq<Face>) -> bool {
    &&& quads.len() == faces.len()
    &&& forall|k: int| 0 <= k < quads.len() ==> quad_shows(#[trigger] quads[k], origin, faces[k])
}

/// Whether a chunk at `origin` is far enough from the ends of the world for
/// the corners of its faces to be written down.
pub open spec fn can_mesh_at(origin: WorldPosition) -> bool {
    &&& -0x2000_0000_0000_0000 <= origin.x <= 0x2000_0000_0000_0000
    &&& -0x2000_0000_0000_0000 <= origin.y <= 0x2000_0000_0000_0000
    &&& -0x2000_0000_0000_0000 <= origin.z <= 0x2000_0000_0000_0000
}

/// The corner `j` of a quad as a vertex.
pub open spec fn vertex_of(quad: Quad, j: int) -> MeshVertex {
    MeshVertex {
        position: quad.corners[j],
        normal: quad.direction.normal(),
        color_diffuse: quad.color,
    }
}

/// The vertices of a list of quads: the four corners of each, in order.
pub open spec fn vertices_of(quads: Seq<Quad>) -> Seq<MeshVertex> {
    Seq::new(4 * quads.len(), |i: int| vertex_of(quads[i / 4], i % 4))
}

/// Which corner of its quad the place `j` of the six of a quad's two
/// triangles names: the triangles are `(0, 1, 2)` and `(0, 2, 3)`.
pub open spec fn triangle_corner(j: int) -> int {
    if j == 0 || j == 3 {
        0
    } else if j == 1 {
        1
    } else if j == 2 || j == 4 {
        2
    } else {
        3
    }
}

/// The triangles over the vertices of `n` quads.
pub open spec fn indices_of(n: nat) -> Seq<u32> {
    Seq::new(6 * n, |i: int| (4 * (i / 6) + triangle_corner(i % 6)) as u32)
}

/// A chunk has at most three faces for each of its voxels.
proof fn lemma_faces_upto_len(data: Map<ChunkPosition, Chunk>, chunk: ChunkPosition, n: nat)
    ensures
        faces_upto(data, chunk, n).len() <= 3 * n,
    decreases n,
{
    if n > 0 {
        lemma_faces_upto_len(data, chunk, (n - 1) as nat);
    }
}

/// Adds to `quads` the faces of one voxel, from the voxel itself and its
/// neighbours to the left, below and behind.
pub fn process_voxel(
    voxel: &Voxel,
    voxel_pos: WorldPosition,
    left: &Voxel,
    down: &Voxel,
    back: &Voxel,
    quads: &mut Vec<Quad>,
)
    requires
        voxel_pos.has_corners(),
    ensures
        ({
            let faces = faces_of(voxel.solid(), left.solid(), down.solid(), back.solid());
            &&& final(quads)@.len() == old(quads)@.len() + faces.len()
            &&& final(quads)@.take(old(quads)@.len() as int) == old(quads)@
            &&& forall|j: int|
                0 <= j < faces.len() ==> {
                    let quad = #[trigger] final(quads)@[old(quads)@.len() + j];
                    &&& quad.direction == faces[j]
                    &&& quad.corners@ == quad_corners(faces[j], voxel_pos)
                    &&& is_face_color(quad.color)
                }
        }),
{
    let ghost before = quads@;
    match voxel.is_solid() {
        true => {
            if !left.is_solid() {
                quads.push(Quad::from_direction(Direction::Left, voxel_pos));
            }
            if !down.is_solid() {
                quads.push(Quad::from_direction(Direction::Down, voxel_pos));
            }
            if !back.is_solid() {
                quads.push(Quad::from_direction(Direction::Back, voxel_pos));
            }
        },
        false => {
            if left.is_solid() {
                quads.push(Quad::from_direction(Direction::Right, voxel_pos));
            }
            if down.is_solid() {
                quads.push(Quad::from_direction(Direction::Up, voxel_pos));
            }
            if back.is_solid() {
                quads.push(Quad::from_direction(Direction::Forward, voxel_pos));
            }
        },
    }
    assert(quads@.take(before.len() as int) =~= before);
}

/// Quads that show some faces, followed by quads that show more, show all
/// of them.
proof fn lemma_show_more(
    quads: Seq<Quad>,
    shown: int,
    origin: WorldPosition,
    so_far: Seq<Face>,
    added: Seq<Face>,
)
    requires
        0 <= shown <= quads.len(),
        quads_show(quads.take(shown), origin, so_far),
        quads.len() == shown + added.len(),
        forall|j: int|
            0 <= j < added.len() ==> quad_shows(#[trigger] quads[shown + j], origin, added[j]),
    ensures
        quads_show(quads, origin, so_far + added),
{
    let all = so_far + added;
    assert forall|k: int| 0 <= k < quads.len() implies quad_shows(
        #[trigger] quads[k],
        origin,
        all[k],
    ) by {
        if k < shown {
            assert(quads[k] == quads.take(shown)[k]);
        } else {
            assert(quads[k] == quads[shown + (k - shown)]);
            assert(all[k] == added[k - shown]);
        }
    }
}

/// The faces of the first `n + 1` voxels are those of the first `n` and
/// those of the voxel at place `n`.
proof fn lemma_faces_step(
    data: Map<ChunkPosition, Chunk>,
    chunk: ChunkPosition,
    cell: LocalCoordinate,
)
    requires
        cell.in_bounds(),
    ensures
        faces_upto(data, chunk, (cell.index() + 1) as nat) == faces_upto(
            data,
            chunk,
            cell.index() as nat,
        ) + cell_faces(data, chunk, cell),
{
    let n = cell.index();
    assert(LocalCoordinate::of_index(n) == cell);
    assert(((n + 1) as nat - 1) as nat == n as nat);
}

/// The quads that `process_voxel` added show the faces of the voxel.
proof fn lemma_added_quads_show(
    quads: Seq<Quad>,
    shown: int,
    origin: WorldPosition,
    cell: LocalCoordinate,
    directions: Seq<Direction>,
)
    requires
        0 <= shown,
        quads.len() == shown + directions.len(),
        forall|j: int|
            0 <= j < directions.len() ==> {
                let quad = #[trigger] quads[shown + j];
                &&& quad.direction == directions[j]
                &&& quad.corners@ == quad_corners(directions[j], cell_world(origin, cell))
                &&& is_face_color(quad.color)
            },
    ensures
        forall|j: int|
            0 <= j < directions.len() ==> quad_shows(
                #[trigger] quads[shown + j],
                origin,
                directions.map_values(|d: Direction| Face { cell, direction: d })[j],
            ),
{
}

/// Adds to `quads` the faces of the voxel at `(x, y, z)` of the chunk at
/// `chunk_pos`, where the voxel and its three neighbours on the negative
/// side are resident, and nothing otherwise.
fn mesh_cell(
    chunks: &Chunks,
    chunk_pos: &ChunkPosition,
    chunk_world_pos: &WorldPosition,
    x: i32,
    y: i32,
    z: i32,
    quads: &mut Vec<Quad>,
)
    requires
        chunks.wf(),
        can_mesh_at(*chunk_world_pos),
        0 <= x < 16,
        0 <= y < 16,
        0 <= z < 16,
        quads_show(
            old(quads)@,
            *chunk_world_pos,
            faces_upto(chunks@.data, *chunk_pos, (x * 256 + y * 16 + z) as nat),
        ),
    ensures
        quads_show(
            final(quads)@,
            *chunk_world_pos,
            faces_upto(chunks@.data, *chunk_pos, (x * 256 + y * 16 + z + 1) as nat),
        ),
{
    let ghost data = chunks@.data;
    let ghost cell = LocalCoordinate(x, y, z);
    let ghost so_far = faces_upto(data, *chunk_pos, cell.index() as nat);
    let ghost added = cell_faces(data, *chunk_pos, cell);
    let ghost shown = quads@;
    let voxel_pos_world = WorldPosition {
        x: chunk_world_pos.x + x as i64,
        y: chunk_world_pos.y + y as i64,
        z: chunk_world_pos.z + z as i64,
    };
    proof {
        lemma_faces_step(data, *chunk_pos, cell);
    }
    let found = adjacent_voxels(chunks, (x, y, z), chunk_pos);
    if let Ok((voxel, back, left, down)) = found {
        let ghost directions = faces_of(voxel.solid(), left.solid(), down.solid(), back.solid());
        assert(cell_directions(data, *chunk_pos, cell) == directions);
        process_voxel(voxel, voxel_pos_world, left, down, back, quads);
        proof {
            lemma_added_quads_show(
                quads@,
                shown.len() as int,
                *chunk_world_pos,
                cell,
                directions,
            );
            lemma_show_more(quads@, shown.len() as int, *chunk_world_pos, so_far, added);
        }
    } else {
        proof {
            assert(cell_directions(data, *chunk_pos, cell) == Seq::<Direction>::empty());
            assert(added =~= Seq::empty());
            assert(so_far + added =~= so_far);
        }
    }
}

/// The faces of the chunk at `chunk_pos`, as quads placed in a chunk whose
/// smallest corner is at `chunk_world_pos`.
pub fn build_chunk_quads(
    chunks: &Chunks,
    chunk_pos: &ChunkPosition,
    chunk_world_pos: &WorldPosition,
) -> (quads: Vec<Quad>)
    requires
        chunks.wf(),
        can_mesh_at(*chunk_world_pos),
    ensures
        quads_show(quads@, *chunk_world_pos, chunk_faces(chunks@.data, *chunk_pos)),
{
    let chunk_size: i32 = 16;
    let mut quads = Vec::<Quad>::new();
    let ghost data = chunks@.data;
    let mut x: i32 = 0;
    while x < chunk_size
        invariant
            chunks.wf(),
            data == chunks@.data,
            can_mesh_at(*chunk_world_pos),
            chunk_size == 16,
            0 <= x <= 16,
            quads_show(quads@, *chunk_world_pos, faces_upto(data, *chunk_pos, (x * 256) as nat)),
        decreases 16 - x,
    {
        let mut y: i32 = 0;
        while y < chunk_size
            invariant
                chunks.wf(),
                data == chunks@.data,
                can_mesh_at(*chunk_world_pos),
                chunk_size == 16,
                0 <= x < 16,
                0 <= y <= 16,
                quads_show(
                    quads@,
                    *chunk_world_pos,
                    faces_upto(data, *chunk_pos, (x * 256 + y * 16) as nat),
                ),
            decreases 16 - y,
        {
            let mut z: i32 = 0;
            while z < chunk_size
                invariant
                    chunks.wf(),
                    data == chunks@.data,
                    can_mesh_at(*chunk_world_pos),
                    chunk_size == 16,
                    0 <= x < 16,
                    0 <= y < 16,
                    0 <= z <= 16,
                    quads_show(
                        quads@,
                        *chunk_world_pos,
                        faces_upto(data, *chunk_pos, (x * 256 + y * 16 + z) as nat),
                    ),
                decreases 16 - z,
            {
                mesh_cell(chunks, chunk_pos, chunk_world_pos, x, y, z, &mut quads);
                z += 1;
            }
            y += 1;
        }
        x += 1;
    }
    quads
}

/// Lays the quads out as vertices and triangles: four vertices a quad, and
/// the two triangles `(0, 1, 2)` and `(0, 2, 3)` over them.
pub fn triangulate(quads: &Vec<Quad>) -> (geometry: ChunkGeometry)
    requires
        4 * quads@.len() <= u32::MAX,
    ensures
        geometry.vertices@ == vertices_of(quads@),
        geometry.indices@ == indices_of(quads@.len()),
{
    let mut voxel_vertices = Vec::<MeshVertex>::new();
    let mut indices = Vec::<u32>::new();
    let mut vert_index: u32 = 0;
    let mut k: usize = 0;
    while k < quads.len()
        invariant
            4 * quads@.len() <= u32::MAX,
            k <= quads@.len(),
            vert_index == 4 * k,
            voxel_vertices@ == vertices_of(quads@.take(k as int)),
            indices@ == indices_of(k as nat),
        decreases quads@.len() - k,
    {
        let quad = &quads[k];
        let normal = quad.direction.get_normal();
        let ghost vertices_before = voxel_vertices@;
        let ghost indices_before = indices@;
        let mut corner: usize = 0;
        while corner < 4
            invariant
                corner <= 4,
                k < quads@.len(),
                *quad == quads@[k as int],
                normal == quad.direction.normal(),
                voxel_vertices@.len() == vertices_before.len() + corner,
                voxel_vertices@.take(vertices_before.len() as int) == vertices_before,
                forall|j: int|
                    0 <= j < corner ==> #[trigger] voxel_vertices@[vertices_before.len() + j]
                        == vertex_of(*quad, j),
            decreases 4 - corner,
        {
            let ghost grown = voxel_vertices@;
            voxel_vertices.push(
                MeshVertex {
                    position: quad.corners[corner],
                    normal,
                    color_diffuse: quad.color,
                },
            );
            proof {
                assert(voxel_vertices@.take(vertices_before.len() as int) =~= grown.take(
                    vertices_before.len() as int,
                ));
                let start = vertices_before.len();
                assert forall|j: int|
                    0 <= j < corner + 1 implies #[trigger] voxel_vertices@[start + j] == vertex_of(
                    *quad,
                    j,
                ) by {
                    if j < corner {
                        assert(voxel_vertices@[start + j] == grown[start + j]);
                    }
                }
            }
            corner += 1;
        }
        indices.push(vert_index);
        indices.push(vert_index + 1);
        indices.push(vert_index + 2);
        indices.push(vert_index);
        indices.push(vert_index + 2);
        indices.push(vert_index + 3);
        proof {
            let now = quads@.take(k + 1);
            assert forall|i: int| 0 <= i < 4 * (k + 1) implies voxel_vertices@[i] == vertices_of(
                now,
            )[i] by {
                if i < 4 * k {
                    assert(voxel_vertices@[i] == voxel_vertices@.take(
                        vertices_before.len() as int,
                    )[i]);
                    assert(vertices_before[i] == vertex_of(quads@.take(k as int)[i / 4], i % 4));
                    assert(quads@.take(k as int)[i / 4] == now[i / 4]);
                } else {
                    let j = i - 4 * k;
                    assert(voxel_vertices@[vertices_before.len() + j] == vertex_of(*quad, j));
                    assert(i / 4 == k && i % 4 == j);
                    assert(now[k as int] == *quad);
                }
            }
            assert(voxel_vertices@ =~= vertices_of(now));
            assert forall|i: int| 0 <= i < 6 * (k + 1) implies indices@[i] == indices_of(
                (k + 1) as nat,
            )[i] by {
                if i < 6 * k {
                    assert(indices@[i] == indices_before[i]);
                } else {
                    assert(i / 6 == k);
                }
            }
            assert(indices@ =~= indices_of((k + 1) as nat));
        }
        vert_index += 4;
        k += 1;
    }
    proof {
        assert(quads@.take(k as int) =~= quads@);
    }
    ChunkGeometry { vertices: voxel_vertices, indices }
}

/// Whether the geometry is that of quads which show the faces.
pub open spec fn geometry_shows(
    geometry: ChunkGeometry,
    origin: WorldPosition,
    faces: Seq<Face>,
) -> bool {
    exists|quads: Seq<Quad>|
        {
            &&& #[trigger] quads_show(quads, origin, faces)
            &&& geometry.vertices@ == vertices_of(quads)
            &&& geometry.indices@ == indices_of(quads.len())
        }
}

/// The faces of the chunk at `chunk_pos` as vertices and triangles, placed in
/// a chunk whose smallest corner is at `chunk_world_pos`. A chunk without
/// faces gives empty lists.
pub fn build_chunk_mesh(
    chunks: &Chunks,
    chunk_pos: &ChunkPosition,
    chunk_world_pos: &WorldPosition,
) -> (geometry: ChunkGeometry)
    requires
        chunks.wf(),
        can_mesh_at(*chunk_world_pos),
    ensures
        geometry_shows(geometry, *chunk_world_pos, chunk_faces(chunks@.data, *chunk_pos)),
        geometry.vertices@.len() == 4 * chunk_faces(chunks@.data, *chunk_pos).len(),
        geometry.indices@.len() == 6 * chunk_faces(chunks@.data, *chunk_pos).len(),
        geometry.vertices@.len() <= 49152,
{
    let quads = build_chunk_quads(chunks, chunk_pos, chunk_world_pos);
    proof {
        lemma_faces_upto_len(chunks@.data, *chunk_pos, 4096);
    }
    let geometry = triangulate(&quads);
    assert(quads_show(quads@, *chunk_world_pos, chunk_faces(chunks@.data, *chunk_pos)));
    geometry
}

/// Whether `after` is the arena `before` with the two buffers stored under
/// the handles `vertex` and `index`, neither of which was live.
pub open spec fn holds_two_more(
    before: Map<Index, GpuBuffer>,
    after: Map<Index, GpuBuffer>,
    vertex: Index,
    vertex_buffer: GpuBuffer,
    index: Index,
    index_buffer: GpuBuffer,
) -> bool {
    &&& !before.contains_key(vertex)
    &&& !before.contains_key(index)
    &&& vertex != index
    &&& after == before.insert(vertex, vertex_buffer).insert(index, index_buffer)
}

/// Whether neither handle was ever removed from the arena, so that no mesh
/// evicted earlier can still refer to either.
pub open spec fn are_fresh(retired: Set<Index>, vertex: Index, index: Index) -> bool {
    !retired.contains(vertex) && !retired.contains(index)
}

/// Gives the mesh at `chunk_pos` the two buffers that hold its faces on the
/// graphics device: they go into the arena, and the mesh keeps their handles
/// and sizes. Says whether the mesh got any vertices. Where no mesh is
/// resident at the position, nothing happens.
pub fn attach_chunk_mesh(
    chunks: &mut Chunks,
    gpu_resources: &mut GpuResources,
    chunk_pos: &ChunkPosition,
    vertex_buffer: GpuBuffer,
    index_buffer: GpuBuffer,
    num_indices: u32,
    num_vertices: u32,
) -> (built: bool)
    requires
        old(chunks).wf(),
    ensures
        final(chunks).wf(),
        built == (old(chunks)@.meshes.contains_key(*chunk_pos) && num_vertices != 0),
        !old(chunks)@.meshes.contains_key(*chunk_pos) ==> final(chunks)@ == old(chunks)@
            && final(gpu_resources).slots() == old(gpu_resources).slots(),
        old(chunks)@.meshes.contains_key(*chunk_pos) ==> {
            let mesh = final(chunks)@.meshes[*chunk_pos];
            &&& final(chunks)@ == (ChunksView {
                meshes: old(chunks)@.meshes.insert(*chunk_pos, mesh),
                ..old(chunks)@
            })
            &&& mesh.vertex_buffer is Some
            &&& mesh.index_buffer is Some
            &&& mesh.num_indices == num_indices
            &&& mesh.num_vertices == num_vertices
            &&& holds_two_more(
                old(gpu_resources).slots(),
                final(gpu_resources).slots(),
                mesh.vertex_buffer->0,
                vertex_buffer,
                mesh.index_buffer->0,
                index_buffer,
            )
            &&& are_fresh(old(gpu_resources).retired(), mesh.vertex_buffer->0, mesh.index_buffer->0)
        },
        final(gpu_resources).retired() == old(gpu_resources).retired(),
{
    match chunks.get_chunk_mesh_mut(chunk_pos) {
        Some(chunk_mesh) => {
            let v_buf = gpu_resources.insert(vertex_buffer);
            let i_buf = gpu_resources.insert(index_buffer);
            chunk_mesh.update_vertex_buffers(v_buf, i_buf, num_indices, num_vertices);
            num_vertices != 0
        },
        None => false,
    }
}

} // verus!
