//! One round of mesh building: the queue is drained up to the first chunk
//! that has faces.

use crate::voxel_tools::chunk::ChunkMesh;
use crate::voxel_tools::chunks::Chunks;
use crate::voxel_tools::chunks::ChunksView;
use crate::voxel_tools::chunks::DEFAULT_MAX_MESH_DATAS;
use crate::voxel_tools::chunks::loading::after_takes;
use crate::voxel_tools::keyed::lemma_positions_insert;
use crate::voxel_tools::keyed::lemma_positions_len;
use crate::voxel_tools::mesh_builder::ChunkGeometry;
use crate::voxel_tools::mesh_builder::build_chunk_mesh;
use crate::voxel_tools::mesh_builder::chunk_faces;
use crate::voxel_tools::mesh_builder::geometry_shows;
use crate::voxel_tools::position::ChunkPosition;
use crate::voxel_tools::position::lemma_key_roundtrip;
use crate::voxel_tools::schedule::lemma_contains_in_concat;
use std::collections::HashMap;
use vstd::prelude::*;

verus! {

broadcast use vstd::std_specs::hash::group_hash_axioms;

/// `HashMap::get_mut`: the value stored under the key, open to change, and
/// nothing where the key is absent. No other entry can change through it.
#[verifier::external_body]
fn mesh_entry_mut<'a>(map: &'a mut HashMap<u128, ChunkMesh>, key: u128) -> (entry: Option<
    &'a mut ChunkMesh,
>)
    ensures
        match entry {
            Some(mesh) => old(map)@.contains_key(key) && *mesh == old(map)@[key] && final(map)@
                == old(map)@.insert(key, *final(mesh)),
            None => !old(map)@.contains_key(key) && final(map)@ == old(map)@,
        },
{
    map.get_mut(&key)
}

impl Chunks {
    /// The mesh at `chunk_pos`, open to change.
    pub fn get_chunk_mesh_mut(&mut self, chunk_pos: &ChunkPosition) -> (entry: Option<
        &mut ChunkMesh,
    >)
        requires
            old(self).wf(),
        ensures
            final(self).wf(),
            match entry {
                Some(mesh) => {
                    &&& old(self)@.meshes.contains_key(*chunk_pos)
                    &&& *mesh == old(self)@.meshes[*chunk_pos]
                    &&& final(self)@ == (ChunksView {
                        meshes: old(self)@.meshes.insert(*chunk_pos, *final(mesh)),
                        ..old(self)@
                    })
                },
                None => !old(self)@.meshes.contains_key(*chunk_pos) && final(self)@ == old(self)@,
            },
    {
        proof {
            lemma_key_roundtrip(*chunk_pos);
        }
        let entry = mesh_entry_mut(&mut self.chunk_mesh_map, chunk_pos.to_key());
        proof {
            if entry is Some {
                lemma_positions_insert(old(self).chunk_mesh_map@, *chunk_pos, *final(entry->0));
            }
        }
        entry
    }
}

/// The faces of one chunk, built and waiting to be put on the graphics
/// device.
pub struct MeshBuild {
    pub position: ChunkPosition,
    pub geometry: ChunkGeometry,
}

/// What one round of mesh building does. It takes positions off the front
/// of the queue, and gives each one it takes a mesh without buffers, which
/// keeps the position from being queued again. It ends with the first chunk
/// that has faces, which it hands out; or when the queue is empty; or when
/// the manager holds its fill of meshes, and then whatever still waits stays
/// in the queue.
pub open spec fn mesh_round(
    before: ChunksView,
    after: ChunksView,
    work: Option<MeshBuild>,
) -> bool {
    let queue = before.mesh_load_queue;
    let taken = queue.len() - after.mesh_load_queue.len();
    &&& 0 <= taken <= queue.len()
    &&& after == (ChunksView {
        meshes: after.meshes,
        mesh_load_queue: queue.skip(taken),
        free_meshes: after_takes(before.free_meshes, taken as nat),
        ..before
    })
    &&& after.meshes.dom().len() == before.meshes.dom().len() + taken
    &&& forall|p: ChunkPosition|
        #[trigger] after.meshes.contains_key(p) <==> before.meshes.contains_key(p) || queue.take(
            taken,
        ).contains(p)
    &&& forall|p: ChunkPosition|
        before.meshes.contains_key(p) ==> #[trigger] after.meshes[p] == before.meshes[p]
    &&& forall|i: int| 0 <= i < taken ==> (#[trigger] after.meshes[queue[i]]).is_blank()
    &&& forall|i: int|
        0 <= i < taken && !(work is Some && i == taken - 1) ==> chunk_faces(
            before.data,
            #[trigger] queue[i],
        ).len() == 0
    &&& match work {
        Some(job) => {
            &&& taken >= 1
            &&& job.position == queue[taken - 1]
            &&& chunk_faces(before.data, job.position).len() > 0
            &&& geometry_shows(
                job.geometry,
                job.position.world(),
                chunk_faces(before.data, job.position),
            )
        },
        None => {
            ||| taken == queue.len()
            ||| after.meshes.dom().len() >= DEFAULT_MAX_MESH_DATAS
        },
    }
}

/// A round abandons no position: what it took has a mesh, and what it did
/// not take still waits.
proof fn lemma_round_keeps_every_position(
    queue: Seq<ChunkPosition>,
    taken: int,
    meshes: Map<ChunkPosition, ChunkMesh>,
)
    requires
        0 <= taken <= queue.len(),
        forall|p: ChunkPosition|
            queue.take(taken).contains(p) ==> #[trigger] meshes.contains_key(p),
    ensures
        forall|i: int|
            0 <= i < queue.len() ==> {
                let p = #[trigger] queue[i];
                meshes.contains_key(p) || queue.skip(taken).contains(p)
            },
{
    assert forall|i: int| 0 <= i < queue.len() implies {
        let p = #[trigger] queue[i];
        meshes.contains_key(p) || queue.skip(taken).contains(p)
    } by {
        if i < taken {
            assert(queue.take(taken)[i] == queue[i]);
        } else {
            assert(queue.skip(taken)[i - taken] == queue[i]);
        }
    }
}

impl Chunks {
    /// Builds the faces of the chunks that wait in the queue, first in, first
    /// out, up to and including the first chunk that has any, and hands that
    /// chunk's faces out. At most one chunk with faces is built per call. No
    /// position is taken from the queue while the manager holds its fill of
    /// meshes.
    pub fn build_chunk_meshes_in_queue(&mut self) -> (work: Option<MeshBuild>)
        requires
            old(self).wf(),
        ensures
            final(self).wf(),
            mesh_round(old(self)@, final(self)@, work),
            forall|i: int|
                0 <= i < old(self)@.mesh_load_queue.len() ==> {
                    let p = #[trigger] old(self)@.mesh_load_queue[i];
                    final(self)@.meshes.contains_key(p) || final(self)@.mesh_load_queue.contains(p)
                },
    {
        let ghost before = self@;
        let ghost queue = self@.mesh_load_queue;
        let mut done: usize = 0;
        proof {
            lemma_positions_len(self.chunk_mesh_map@);
            assert(queue.skip(0) =~= queue);
        }
        while self.chunk_mesh_load_queue.len() > 0
            invariant
                self.wf(),
                before.wf(),
                before == old(self)@,
                queue == before.mesh_load_queue,
                done <= queue.len(),
                self@.meshes.dom().len() == before.meshes.dom().len() + done,
                self@ == (ChunksView {
                    meshes: self@.meshes,
                    mesh_load_queue: queue.skip(done as int),
                    free_meshes: after_takes(before.free_meshes, done as nat),
                    ..before
                }),
                forall|p: ChunkPosition|
                    #[trigger] self@.meshes.contains_key(p) <==> before.meshes.contains_key(p)
                        || queue.take(done as int).contains(p),
                forall|p: ChunkPosition|
                    before.meshes.contains_key(p) ==> #[trigger] self@.meshes[p]
                        == before.meshes[p],
                forall|i: int| 0 <= i < done ==> (#[trigger] self@.meshes[queue[i]]).is_blank(),
                forall|i: int|
                    0 <= i < done ==> chunk_faces(before.data, #[trigger] queue[i]).len() == 0,
            decreases queue.len() - done,
        {
            proof {
                lemma_positions_len(self.chunk_mesh_map@);
            }
            if self.chunk_mesh_map.len() >= DEFAULT_MAX_MESH_DATAS {
                proof {
                    lemma_round_keeps_every_position(queue, done as int, self@.meshes);
                }
                return None;
            }
            let ghost at_pop = self@;
            let popped = self.chunk_mesh_load_queue.pop_front();
            let chunk_pos = popped.unwrap();
            proof {
                assert(chunk_pos == queue[done as int]);
                assert(self@.mesh_load_queue =~= queue.skip(done + 1));
                assert(self@.mesh_load_queue.no_duplicates());
                assert forall|i: int|
                    0 <= i < self@.mesh_load_queue.len() implies !self@.meshes.contains_key(
                    #[trigger] self@.mesh_load_queue[i],
                ) by {
                    assert(self@.mesh_load_queue[i] == at_pop.mesh_load_queue[i + 1]);
                }
                lemma_positions_len(self.chunk_mesh_map@);
                assert(!at_pop.meshes.contains_key(chunk_pos)) by {
                    assert(at_pop.mesh_load_queue[0] == chunk_pos);
                }
            }
            let chunk_mesh = self.chunk_mesh_pool.checkout();
            proof {
                lemma_positions_insert(self.chunk_mesh_map@, chunk_pos, chunk_mesh);
            }
            self.chunk_mesh_map.insert(chunk_pos.to_key(), chunk_mesh);
            proof {
                lemma_positions_len(self.chunk_mesh_map@);
                assert(self@.meshes == at_pop.meshes.insert(chunk_pos, chunk_mesh));
                assert(queue.take(done + 1) =~= queue.take(done as int) + seq![chunk_pos]);
                assert(seq![chunk_pos][0] == chunk_pos);
                assert forall|p: ChunkPosition|
                    #[trigger] self@.meshes.contains_key(p) <==> before.meshes.contains_key(p)
                        || queue.take(done + 1).contains(p) by {
                    lemma_contains_in_concat(queue.take(done as int), seq![chunk_pos], p);
                    assert(at_pop.meshes.contains_key(p) <==> before.meshes.contains_key(p)
                        || queue.take(done as int).contains(p));
                }
                assert forall|i: int|
                    0 <= i < self@.mesh_load_queue.len() implies !self@.meshes.contains_key(
                    #[trigger] self@.mesh_load_queue[i],
                ) by {
                    assert(self@.mesh_load_queue[i] == queue[done + 1 + i]);
                    assert(at_pop.mesh_load_queue[i + 1] == queue[done + 1 + i]);
                }
                assert forall|i: int|
                    0 <= i < done + 1 implies (#[trigger] self@.meshes[queue[i]]).is_blank() by {
                    if i < done {
                        assert(queue[i] != chunk_pos);
                        assert(at_pop.meshes[queue[i]].is_blank());
                    }
                }
                assert forall|p: ChunkPosition|
                    before.meshes.contains_key(p) implies #[trigger] self@.meshes[p]
                    == before.meshes[p] by {
                    assert(at_pop.meshes.contains_key(p));
                    assert(at_pop.meshes[p] == before.meshes[p]);
                }
            }
            let chunk_world_pos = Self::chunk_to_world(chunk_pos);
            let geometry = build_chunk_mesh(self, &chunk_pos, &chunk_world_pos);
            done += 1;
            if geometry.vertices.len() != 0 {
                proof {
                    lemma_round_keeps_every_position(queue, done as int, self@.meshes);
                }
                return Some(MeshBuild { position: chunk_pos, geometry });
            }
        }
        proof {
            lemma_round_keeps_every_position(queue, done as int, self@.meshes);
            assert(self@.mesh_load_queue.len() == 0);
            assert(done == queue.len());
        }
        None
    }
}

} // verus!
