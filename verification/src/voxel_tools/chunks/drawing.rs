//! What a frame draws: one call for every mesh whose buffers are set and
//! live.

use crate::rendering::gpu_resources::GpuBuffer;
use crate::rendering::gpu_resources::GpuResources;
use crate::voxel_tools::chunk::ChunkMesh;
use crate::voxel_tools::chunks::ChunkError;
use crate::voxel_tools::chunks::Chunks;
use crate::voxel_tools::chunks::DEFAULT_MAX_MESH_DATAS;
use crate::voxel_tools::keyed::lemma_positions_len;
use crate::voxel_tools::position::ChunkPosition;
use crate::voxel_tools::schedule::lemma_contains_in_concat;
use crate::voxel_tools::schedule::lemma_push_no_duplicates;
use generational_arena::Index;
use vstd::prelude::*;

verus! {

broadcast use vstd::std_specs::hash::group_hash_axioms;

/// One indexed draw: the two buffers of a mesh, as the arena holds them,
/// and the number of indices to draw.
#[derive(Clone, Copy, Debug)]
pub struct DrawCall {
    pub position: ChunkPosition,
    pub vertex_buffer: GpuBuffer,
    pub index_buffer: GpuBuffer,
    pub num_indices: u32,
}

/// What a frame draws, and what it leaves out.
pub struct DrawList {
    /// One call for each mesh that can be drawn.
    pub calls: Vec<DrawCall>,
    /// The positions of the meshes that cannot be drawn.
    pub skipped: Vec<ChunkPosition>,
}

/// Whether the mesh at `p` can be drawn: it is resident, both its handles
/// are set, and the arena holds a buffer under each.
pub open spec fn is_drawable(
    meshes: Map<ChunkPosition, ChunkMesh>,
    slots: Map<Index, GpuBuffer>,
    p: ChunkPosition,
) -> bool {
    &&& meshes.contains_key(p)
    &&& meshes[p].vertex_buffer is Some
    &&& meshes[p].index_buffer is Some
    &&& slots.contains_key(meshes[p].vertex_buffer->0)
    &&& slots.contains_key(meshes[p].index_buffer->0)
}

/// The draw call for the mesh at `p`, where it can be drawn.
pub open spec fn draw_call_of(
    meshes: Map<ChunkPosition, ChunkMesh>,
    slots: Map<Index, GpuBuffer>,
    p: ChunkPosition,
) -> DrawCall {
    DrawCall {
        position: p,
        vertex_buffer: slots[meshes[p].vertex_buffer->0],
        index_buffer: slots[meshes[p].index_buffer->0],
        num_indices: meshes[p].num_indices,
    }
}

/// Whether the list holds a call for the mesh at `p`.
pub open spec fn is_called(calls: Seq<DrawCall>, p: ChunkPosition) -> bool {
    exists|j: int| 0 <= j < calls.len() && (#[trigger] calls[j]).position == p
}

/// What holds of the calls of a frame: each is the call of a mesh that can
/// be drawn, no mesh is called twice, and every mesh that can be drawn is
/// called.
pub open spec fn calls_are(
    calls: Seq<DrawCall>,
    meshes: Map<ChunkPosition, ChunkMesh>,
    slots: Map<Index, GpuBuffer>,
) -> bool {
    &&& forall|j: int|
        0 <= j < calls.len() ==> is_drawable(meshes, slots, (#[trigger] calls[j]).position)
            && calls[j] == draw_call_of(meshes, slots, calls[j].position)
    &&& forall|i: int, j: int|
        0 <= i < calls.len() && 0 <= j < calls.len() && i != j ==> (#[trigger] calls[i]).position
            != (#[trigger] calls[j]).position
    &&& forall|p: ChunkPosition| #[trigger] is_drawable(meshes, slots, p) ==> is_called(calls, p)
}

/// The sum of the vertex counts of the meshes.
pub open spec fn vertex_total(meshes: Map<ChunkPosition, ChunkMesh>) -> int {
    meshes.dom().fold(0int, |sum: int, p: ChunkPosition| sum + meshes[p].num_vertices)
}

impl Chunks {
    /// The draw call for the mesh at `chunk_pos`.
    pub fn draw_call(&self, chunk_pos: &ChunkPosition, gpu_resources: &GpuResources) -> (call:
        Result<DrawCall, ChunkError>)
        requires
            self.wf(),
        ensures
            match call {
                Ok(c) => is_drawable(self@.meshes, gpu_resources.slots(), *chunk_pos) && c
                    == draw_call_of(self@.meshes, gpu_resources.slots(), *chunk_pos),
                Err(ChunkError::NotFound) => !self@.meshes.contains_key(*chunk_pos),
                Err(ChunkError::IncompleteMesh) => self@.meshes.contains_key(*chunk_pos)
                    && !is_drawable(self@.meshes, gpu_resources.slots(), *chunk_pos),
            },
    {
        let chunk_mesh = match self.chunk_mesh_map.get(&chunk_pos.to_key()) {
            Some(mesh) => mesh,
            None => {
                return Err(ChunkError::NotFound);
            },
        };
        let vertex_buffer_index = match chunk_mesh.vertex_buffer {
            Some(index) => index,
            None => {
                return Err(ChunkError::IncompleteMesh);
            },
        };
        let index_buffer_index = match chunk_mesh.index_buffer {
            Some(index) => index,
            None => {
                return Err(ChunkError::IncompleteMesh);
            },
        };
        let vertex_buffer = match gpu_resources.get(vertex_buffer_index) {
            Some(buffer) => *buffer,
            None => {
                return Err(ChunkError::IncompleteMesh);
            },
        };
        let index_buffer = match gpu_resources.get(index_buffer_index) {
            Some(buffer) => *buffer,
            None => {
                return Err(ChunkError::IncompleteMesh);
            },
        };
        Ok(
            DrawCall {
                position: *chunk_pos,
                vertex_buffer,
                index_buffer,
                num_indices: chunk_mesh.num_indices,
            },
        )
    }

    /// What to draw this frame: one call for every resident mesh whose
    /// buffers are set and live. A mesh that cannot be drawn is skipped, and
    /// the rest is drawn all the same. The order of the calls is left open.
    pub fn draw(&self, gpu_resources: &GpuResources) -> (list: DrawList)
        requires
            self.wf(),
        ensures
            calls_are(list.calls@, self@.meshes, gpu_resources.slots()),
            list.skipped@.no_duplicates(),
            forall|p: ChunkPosition|
                #[trigger] list.skipped@.contains(p) ==> self@.meshes.contains_key(p)
                    && !is_drawable(self@.meshes, gpu_resources.slots(), p),
            forall|p: ChunkPosition|
                #[trigger] self@.meshes.contains_key(p) && !is_drawable(
                    self@.meshes,
                    gpu_resources.slots(),
                    p,
                ) ==> list.skipped@.contains(p),
    {
        let resident = self.resident_mesh_positions();
        let mut calls: Vec<DrawCall> = Vec::new();
        let mut skipped: Vec<ChunkPosition> = Vec::new();
        let ghost meshes = self@.meshes;
        let ghost slots = gpu_resources.slots();
        let mut k: usize = 0;
        while k < resident.len()
            invariant
                self.wf(),
                meshes == self@.meshes,
                slots == gpu_resources.slots(),
                k <= resident@.len(),
                resident@.no_duplicates(),
                forall|p: ChunkPosition|
                    resident@.contains(p) <==> #[trigger] meshes.contains_key(p),
                forall|j: int|
                    0 <= j < calls@.len() ==> is_drawable(
                        meshes,
                        slots,
                        (#[trigger] calls@[j]).position,
                    ) && calls@[j] == draw_call_of(meshes, slots, calls@[j].position)
                        && resident@.take(k as int).contains(calls@[j].position),
                forall|i: int, j: int|
                    0 <= i < calls@.len() && 0 <= j < calls@.len() && i != j
                        ==> (#[trigger] calls@[i]).position != (#[trigger] calls@[j]).position,
                forall|j: int|
                    0 <= j < k && is_drawable(meshes, slots, #[trigger] resident@[j]) ==> is_called(
                        calls@,
                        resident@[j],
                    ),
                skipped@.no_duplicates(),
                forall|p: ChunkPosition|
                    #[trigger] skipped@.contains(p) <==> resident@.take(k as int).contains(p)
                        && !is_drawable(meshes, slots, p),
            decreases resident@.len() - k,
        {
            let chunk_pos = resident[k];
            let ghost calls_then = calls@;
            let ghost skipped_then = skipped@;
            proof {
                assert(resident@.contains(chunk_pos));
                assert(resident@.take(k + 1) =~= resident@.take(k as int) + seq![chunk_pos]);
                assert(seq![chunk_pos][0] == chunk_pos);
                assert(!resident@.take(k as int).contains(chunk_pos)) by {
                    if resident@.take(k as int).contains(chunk_pos) {
                        let j = choose|j: int|
                            0 <= j < k && resident@.take(k as int)[j] == chunk_pos;
                        assert(resident@[j] == resident@[k as int]);
                    }
                }
                assert forall|p: ChunkPosition|
                    resident@.take(k + 1).contains(p) <==> resident@.take(k as int).contains(p)
                        || p == chunk_pos by {
                    lemma_contains_in_concat(resident@.take(k as int), seq![chunk_pos], p);
                }
            }
            match self.draw_call(&chunk_pos, gpu_resources) {
                Ok(call) => {
                    calls.push(call);
                    proof {
                        assert(calls@[calls_then.len() as int] == call);
                        assert forall|j: int|
                            0 <= j < k + 1 && is_drawable(
                                meshes,
                                slots,
                                #[trigger] resident@[j],
                            ) implies is_called(calls@, resident@[j]) by {
                            if j < k {
                                let i = choose|i: int|
                                    0 <= i < calls_then.len() && (#[trigger] calls_then[i]).position
                                        == resident@[j];
                                assert(calls@[i].position == resident@[j]);
                            }
                        }
                    }
                },
                Err(_) => {
                    skipped.push(chunk_pos);
                    proof {
                        lemma_push_no_duplicates(skipped_then, chunk_pos);
                        assert(skipped@ =~= skipped_then + seq![chunk_pos]);
                        assert forall|p: ChunkPosition|
                            #[trigger] skipped@.contains(p) <==> resident@.take(k + 1).contains(p)
                                && !is_drawable(meshes, slots, p) by {
                            lemma_contains_in_concat(skipped_then, seq![chunk_pos], p);
                        }
                    }
                },
            }
            k += 1;
        }
        proof {
            assert(resident@.take(k as int) =~= resident@);
            assert forall|p: ChunkPosition|
                #[trigger] is_drawable(meshes, slots, p) implies is_called(calls@, p) by {
                assert(resident@.contains(p));
                let j = choose|j: int| 0 <= j < resident@.len() && resident@[j] == p;
                assert(is_drawable(meshes, slots, resident@[j]));
            }
        }
        DrawList { calls, skipped }
    }

    /// The number of vertices in all resident meshes.
    pub fn get_vertex_count(&self) -> (total: u64)
        requires
            self.wf(),
        ensures
            total == vertex_total(self@.meshes),
    {
        let resident = self.resident_mesh_positions();
        let ghost meshes = self@.meshes;
        let ghost add = |sum: int, p: ChunkPosition| sum + meshes[p].num_vertices;
        let mut total: u64 = 0;
        let mut k: usize = 0;
        proof {
            lemma_positions_len(self.chunk_mesh_map@);
            assert(resident@.take(0).to_set() =~= Set::empty());
            vstd::set::fold::lemma_fold_empty(0int, add);
            resident@.unique_seq_to_set();
            assert(resident@.to_set() =~= meshes.dom());
        }
        while k < resident.len()
            invariant
                self.wf(),
                meshes == self@.meshes,
                add == |sum: int, p: ChunkPosition| sum + meshes[p].num_vertices,
                k <= resident@.len(),
                resident@.len() == meshes.dom().len(),
                resident@.len() <= DEFAULT_MAX_MESH_DATAS,
                resident@.no_duplicates(),
                forall|p: ChunkPosition|
                    resident@.contains(p) <==> #[trigger] meshes.contains_key(p),
                total == resident@.take(k as int).to_set().fold(0int, add),
                total <= k * 0xffff_ffff,
            decreases resident@.len() - k,
        {
            let chunk_pos = resident[k];
            proof {
                assert(resident@.contains(chunk_pos));
                let seen = resident@.take(k as int);
                assert(resident@.take(k + 1) =~= seen.push(chunk_pos));
                assert(!seen.contains(chunk_pos)) by {
                    if seen.contains(chunk_pos) {
                        let j = choose|j: int| 0 <= j < k && seen[j] == chunk_pos;
                        assert(resident@[j] == resident@[k as int]);
                    }
                }
                assert forall|p: ChunkPosition|
                    seen.push(chunk_pos).to_set().contains(p) <==> seen.to_set().insert(
                        chunk_pos,
                    ).contains(p) by {
                    assert(seen.push(chunk_pos) =~= seen + seq![chunk_pos]);
                    assert(seq![chunk_pos][0] == chunk_pos);
                    lemma_contains_in_concat(seen, seq![chunk_pos], p);
                }
                assert(seen.push(chunk_pos).to_set() =~= seen.to_set().insert(chunk_pos));
                assert(meshes.contains_key(chunk_pos));
                vstd::seq_lib::seq_to_set_is_finite(seen);
                assert(vstd::set::fold::is_fun_commutative(add));
                vstd::set::fold::lemma_fold_insert(seen.to_set(), 0int, add, chunk_pos);
            }
            match self.chunk_mesh_map.get(&chunk_pos.to_key()) {
                Some(mesh) => {
                    assert(total + mesh.num_vertices <= (k + 1) * 0xffff_ffff) by (nonlinear_arith)
                        requires
                            total <= k * 0xffff_ffff,
                            mesh.num_vertices <= 0xffff_ffff,
                    ;
                    assert((k + 1) * 0xffff_ffff <= 10000 * 0xffff_ffff) by (nonlinear_arith)
                        requires
                            k + 1 <= 10000,
                    ;
                    total = total + mesh.num_vertices as u64;
                },
                None => {
                    assert(false);
                },
            }
            k += 1;
        }
        proof {
            assert(resident@.take(k as int) =~= resident@);
        }
        total
    }
}

} // verus!
