//! Why face culling draws every exposed face once.
//!
//! A face lies between a voxel and its neighbour on the negative side of one
//! axis, and it is the voxel on the positive side that owns it. Only that
//! voxel's turn in the scan can emit a quad there, and it emits one exactly
//! when one of the two voxels is solid and the other is not. This holds
//! inside a chunk and across the seam between two chunks alike.

use crate::voxel_tools::chunk::lemma_coordinate_round_trip;
use crate::voxel_tools::chunk::lemma_index_round_trip;
use crate::voxel_tools::chunk::Chunk;
use crate::voxel_tools::chunk::LocalCoordinate;
use crate::voxel_tools::chunks::back_of;
use crate::voxel_tools::chunks::down_of;
use crate::voxel_tools::chunks::left_of;
use crate::voxel_tools::chunks::voxel_at;
use crate::voxel_tools::direction::Axis;
use crate::voxel_tools::direction::Direction;
use crate::voxel_tools::mesh_builder::cell_directions;
use crate::voxel_tools::mesh_builder::cell_faces;
use crate::voxel_tools::mesh_builder::cell_world;
use crate::voxel_tools::mesh_builder::chunk_faces;
use crate::voxel_tools::mesh_builder::face_if;
use crate::voxel_tools::mesh_builder::faces_of;
use crate::voxel_tools::mesh_builder::faces_upto;
use crate::voxel_tools::mesh_builder::Face;
use crate::voxel_tools::position::ChunkPosition;
use vstd::prelude::*;

verus! {

/// The test for a face to lie between the voxel at `cell` and its neighbour
/// on the negative side of `axis`.
pub open spec fn lies_on(cell: LocalCoordinate, axis: Axis) -> spec_fn(Face) -> bool {
    |f: Face| f.cell == cell && f.direction.axis() == axis
}

/// The neighbour of `cell` on the negative side of `axis`.
pub open spec fn negative_neighbor(cell: LocalCoordinate, axis: Axis) -> LocalCoordinate {
    match axis {
        Axis::X => left_of(cell),
        Axis::Y => down_of(cell),
        Axis::Z => back_of(cell),
    }
}

/// Whether the voxel at `cell` and its three neighbours on the negative side
/// are all resident, as they are for every voxel of a chunk whose own data
/// and whose neighbours' data are resident.
pub open spec fn can_see(
    data: Map<ChunkPosition, Chunk>,
    chunk: ChunkPosition,
    cell: LocalCoordinate,
) -> bool {
    &&& voxel_at(data, chunk, cell) is Some
    &&& voxel_at(data, chunk, left_of(cell)) is Some
    &&& voxel_at(data, chunk, down_of(cell)) is Some
    &&& voxel_at(data, chunk, back_of(cell)) is Some
}

/// Whether the face between the voxel at `cell` and its neighbour on the
/// negative side of `axis` is exposed: one of the two is solid, the other is
/// not.
pub open spec fn is_exposed(
    data: Map<ChunkPosition, Chunk>,
    chunk: ChunkPosition,
    cell: LocalCoordinate,
    axis: Axis,
) -> bool {
    voxel_at(data, chunk, cell)->0.solid() != voxel_at(
        data,
        chunk,
        negative_neighbor(cell, axis),
    )->0.solid()
}

/// The faces that a lone direction gives, of which those on a given face of
/// the voxel are kept.
proof fn lemma_face_if_on(wanted: bool, direction: Direction, cell: LocalCoordinate, axis: Axis)
    ensures
        face_if(wanted, direction).map_values(|d: Direction| Face { cell, direction: d }).filter(
            lies_on(cell, axis),
        ).len() == if wanted && direction.axis() == axis {
            1nat
        } else {
            0nat
        },
{
    reveal_with_fuel(Seq::filter, 2);
    let faces = face_if(wanted, direction).map_values(|d: Direction| Face { cell, direction: d });
    if wanted {
        assert(faces.len() == 1);
        assert(faces.last() == Face { cell, direction });
        assert(faces.drop_last().len() == 0);
    } else {
        assert(faces.len() == 0);
    }
}

/// Mapping a concatenation maps its parts.
proof fn lemma_map_add(a: Seq<Direction>, b: Seq<Direction>, cell: LocalCoordinate)
    ensures
        (a + b).map_values(|d: Direction| Face { cell, direction: d }) == a.map_values(
            |d: Direction| Face { cell, direction: d },
        ) + b.map_values(|d: Direction| Face { cell, direction: d }),
{
    assert((a + b).map_values(|d: Direction| Face { cell, direction: d }) =~= a.map_values(
        |d: Direction| Face { cell, direction: d },
    ) + b.map_values(|d: Direction| Face { cell, direction: d }));
}

/// How many of the faces made from three lone directions lie on a given
/// face of the voxel.
proof fn lemma_three_on(
    w0: bool,
    d0: Direction,
    w1: bool,
    d1: Direction,
    w2: bool,
    d2: Direction,
    cell: LocalCoordinate,
    axis: Axis,
)
    ensures
        (face_if(w0, d0) + face_if(w1, d1) + face_if(w2, d2)).map_values(
            |d: Direction| Face { cell, direction: d },
        ).filter(lies_on(cell, axis)).len() == (if w0 && d0.axis() == axis {
            1nat
        } else {
            0nat
        }) + (if w1 && d1.axis() == axis {
            1nat
        } else {
            0nat
        }) + (if w2 && d2.axis() == axis {
            1nat
        } else {
            0nat
        }),
{
    let to_face = |d: Direction| Face { cell, direction: d };
    let test = lies_on(cell, axis);
    let a = face_if(w0, d0);
    let b = face_if(w1, d1);
    let c = face_if(w2, d2);
    lemma_map_add(a + b, c, cell);
    lemma_map_add(a, b, cell);
    Seq::filter_distributes_over_add(a.map_values(to_face) + b.map_values(to_face), c.map_values(
        to_face,
    ), test);
    Seq::filter_distributes_over_add(a.map_values(to_face), b.map_values(to_face), test);
    lemma_face_if_on(w0, d0, cell, axis);
    lemma_face_if_on(w1, d1, cell, axis);
    lemma_face_if_on(w2, d2, cell, axis);
}

/// A voxel emits one quad on each of its exposed faces on the negative
/// side, and none on the others.
proof fn lemma_cell_emits_exposed_faces(
    data: Map<ChunkPosition, Chunk>,
    chunk: ChunkPosition,
    cell: LocalCoordinate,
    axis: Axis,
)
    ensures
        cell_faces(data, chunk, cell).filter(lies_on(cell, axis)).len() == if can_see(
            data,
            chunk,
            cell,
        ) && is_exposed(data, chunk, cell, axis) {
            1nat
        } else {
            0nat
        },
{
    if can_see(data, chunk, cell) {
        let solid = voxel_at(data, chunk, cell)->0.solid();
        let left = voxel_at(data, chunk, left_of(cell))->0.solid();
        let down = voxel_at(data, chunk, down_of(cell))->0.solid();
        let back = voxel_at(data, chunk, back_of(cell))->0.solid();
        assert(cell_directions(data, chunk, cell) == faces_of(solid, left, down, back));
        if solid {
            lemma_three_on(
                !left,
                Direction::Left,
                !down,
                Direction::Down,
                !back,
                Direction::Back,
                cell,
                axis,
            );
        } else {
            lemma_three_on(
                left,
                Direction::Right,
                down,
                Direction::Up,
                back,
                Direction::Forward,
                cell,
                axis,
            );
        }
    } else {
        reveal(Seq::filter);
        assert(cell_directions(data, chunk, cell) =~= Seq::empty());
        assert(cell_faces(data, chunk, cell) =~= Seq::empty());
    }
}

/// No face of one voxel lies on a face of another.
proof fn lemma_other_cell_emits_nothing(
    data: Map<ChunkPosition, Chunk>,
    chunk: ChunkPosition,
    other: LocalCoordinate,
    cell: LocalCoordinate,
    axis: Axis,
)
    requires
        other != cell,
    ensures
        cell_faces(data, chunk, other).filter(lies_on(cell, axis)).len() == 0,
{
    let faces = cell_faces(data, chunk, other);
    let kept = faces.filter(lies_on(cell, axis));
    if kept.len() > 0 {
        faces.lemma_filter_pred(lies_on(cell, axis), 0);
        assert(kept.contains(kept[0]));
        faces.lemma_filter_contains_rev(lies_on(cell, axis), kept[0]);
        let j = choose|j: int| 0 <= j < faces.len() && faces[j] == kept[0];
        assert(faces[j].cell == other);
    }
}

/// Among the faces of the first `n` voxels of a chunk, those on a given face
/// of a voxel are the ones that the voxel itself emitted.
proof fn lemma_faces_upto_on(
    data: Map<ChunkPosition, Chunk>,
    chunk: ChunkPosition,
    cell: LocalCoordinate,
    axis: Axis,
    n: nat,
)
    requires
        cell.in_bounds(),
        n <= 4096,
    ensures
        faces_upto(data, chunk, n).filter(lies_on(cell, axis)).len() == if n > cell.index() {
            cell_faces(data, chunk, cell).filter(lies_on(cell, axis)).len()
        } else {
            0nat
        },
    decreases n,
{
    if n == 0 {
        reveal(Seq::filter);
    } else {
        let before = faces_upto(data, chunk, (n - 1) as nat);
        let here = LocalCoordinate::of_index(n - 1);
        let added = cell_faces(data, chunk, here);
        lemma_faces_upto_on(data, chunk, cell, axis, (n - 1) as nat);
        Seq::filter_distributes_over_add(before, added, lies_on(cell, axis));
        assert(faces_upto(data, chunk, n) == before + added);
        if n - 1 == cell.index() {
            assert(here == cell) by {
                lemma_coordinate_round_trip(cell);
            }
        } else {
            assert(here != cell) by {
                lemma_index_round_trip(n - 1);
            }
            lemma_other_cell_emits_nothing(data, chunk, here, cell, axis);
        }
    }
}

/// The mesh of a chunk holds exactly one quad on every exposed face between
/// a voxel of the chunk and its neighbour on the negative side of an axis,
/// wherever that neighbour lies, and no quad on a face that is not exposed.
pub proof fn lemma_one_quad_per_exposed_face(
    data: Map<ChunkPosition, Chunk>,
    chunk: ChunkPosition,
    cell: LocalCoordinate,
    axis: Axis,
)
    requires
        cell.in_bounds(),
    ensures
        chunk_faces(data, chunk).filter(lies_on(cell, axis)).len() == if can_see(
            data,
            chunk,
            cell,
        ) && is_exposed(data, chunk, cell, axis) {
            1nat
        } else {
            0nat
        },
{
    lemma_faces_upto_on(data, chunk, cell, axis, 4096);
    lemma_cell_emits_exposed_faces(data, chunk, cell, axis);
}

/// Every face of a chunk belongs to a voxel of that chunk.
proof fn lemma_faces_belong_to_chunk(
    data: Map<ChunkPosition, Chunk>,
    chunk: ChunkPosition,
    n: nat,
)
    requires
        n <= 4096,
    ensures
        forall|k: int|
            0 <= k < faces_upto(data, chunk, n).len() ==> (#[trigger] faces_upto(
                data,
                chunk,
                n,
            )[k]).cell.in_bounds(),
    decreases n,
{
    if n > 0 {
        lemma_faces_belong_to_chunk(data, chunk, (n - 1) as nat);
        let before = faces_upto(data, chunk, (n - 1) as nat);
        let here = LocalCoordinate::of_index(n - 1);
        let added = cell_faces(data, chunk, here);
        assert forall|k: int| 0 <= k < (before + added).len() implies (#[trigger] (before
            + added)[k]).cell.in_bounds() by {
            if k >= before.len() {
                assert((before + added)[k] == added[k - before.len()]);
            }
        }
    }
}

/// At a seam, the chunk on the positive side alone draws the shared faces.
/// Take two chunks that touch along `axis`, and a voxel on the boundary of
/// the one on the positive side. The face between that voxel and the voxel
/// across the seam gets its quad, if it is exposed, from the chunk on the
/// positive side, once; and every face of the chunk on the negative side
/// belongs to a voxel elsewhere in the world, so that chunk adds no second
/// quad there.
pub proof fn lemma_seam_is_drawn_once(
    data: Map<ChunkPosition, Chunk>,
    positive: ChunkPosition,
    negative: ChunkPosition,
    cell: LocalCoordinate,
    axis: Axis,
)
    requires
        cell.in_bounds(),
        positive != negative,
        can_see(data, positive, cell),
    ensures
        chunk_faces(data, positive).filter(lies_on(cell, axis)).len() == if is_exposed(
            data,
            positive,
            cell,
            axis,
        ) {
            1nat
        } else {
            0nat
        },
        forall|k: int|
            0 <= k < chunk_faces(data, negative).len() ==> cell_world(
                negative.world(),
                (#[trigger] chunk_faces(data, negative)[k]).cell,
            ) != cell_world(positive.world(), cell),
{
    lemma_one_quad_per_exposed_face(data, positive, cell, axis);
    lemma_faces_belong_to_chunk(data, negative, 4096);
}

} // verus!
