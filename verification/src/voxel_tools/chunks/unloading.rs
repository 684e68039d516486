//! Taking chunks out: queueing what lies outside the render distance, and
//! evicting chunks and meshes, whose buffers leave the arena with them.

use crate::rendering::gpu_resources::GpuBuffer;
use crate::rendering::gpu_resources::GpuResources;
use crate::rendering::gpu_resources::stays_retired;
use crate::voxel_tools::chunk::ChunkMesh;
use crate::voxel_tools::chunks::Chunks;
use crate::voxel_tools::chunks::ChunksView;
use crate::voxel_tools::chunks::MAX_DATA_UNLOAD_QUEUE;
use crate::voxel_tools::chunks::MAX_MESH_UNLOAD_QUEUE;
use crate::voxel_tools::chunks::outside_box;
use crate::voxel_tools::chunks::queue_contains;
use crate::voxel_tools::keyed::lemma_positions_len;
use crate::voxel_tools::keyed::lemma_positions_remove;
use crate::voxel_tools::position::ChunkPosition;
use crate::voxel_tools::position::ObserverPosition;
use crate::voxel_tools::position::lemma_key_roundtrip;
use crate::voxel_tools::schedule::lemma_contains_in_concat;
use crate::voxel_tools::schedule::lemma_push_no_duplicates;
use crate::voxel_tools::schedule::MAX_RENDER_DISTANCE;
use generational_arena::Index;
use std::collections::VecDeque;
use vstd::prelude::*;

verus! {

broadcast use vstd::std_specs::hash::group_hash_axioms;

/// What a refresh of an unload queue leaves in it, given the resident
/// positions: the former queue at the front, no more than the cap, nothing
/// twice, behind the former queue only resident positions outside the cube
/// around the observer; and, while the queue is not full, every one of
/// those.
pub open spec fn holds_outsiders(
    queue: Seq<ChunkPosition>,
    former: Seq<ChunkPosition>,
    resident: Set<ChunkPosition>,
    observer: ObserverPosition,
    r: int,
    cap: nat,
) -> bool {
    &&& former.len() <= queue.len() <= cap
    &&& queue.no_duplicates()
    &&& queue.take(former.len() as int) == former
    &&& forall|i: int|
        former.len() <= i < queue.len() ==> {
            let p = #[trigger] queue[i];
            resident.contains(p) && outside_box(observer, r, p)
        }
    &&& queue.len() < cap ==> forall|p: ChunkPosition|
        #[trigger] resident.contains(p) && outside_box(observer, r, p) ==> queue.contains(p)
}

/// Appends to `queue` the positions of `resident` that lie outside the cube
/// of radius `r` around the chunk the observer stands in and are not queued
/// yet, until the queue holds `cap` positions.
fn queue_outsiders(
    queue: &mut VecDeque<ChunkPosition>,
    resident: &Vec<ChunkPosition>,
    observer: ObserverPosition,
    r: i32,
    cap: usize,
)
    requires
        old(queue)@.no_duplicates(),
        old(queue)@.len() <= cap,
        0 <= r <= MAX_RENDER_DISTANCE,
    ensures
        holds_outsiders(
            final(queue)@,
            old(queue)@,
            resident@.to_set(),
            observer,
            r as int,
            cap as nat,
        ),
{
    let ghost former = queue@;
    assert(queue@.take(former.len() as int) =~= former);
    if queue.len() >= cap {
        return;
    }
    let center = observer.current_chunk();
    let mut k: usize = 0;
    while k < resident.len()
        invariant
            0 <= r <= MAX_RENDER_DISTANCE,
            former == old(queue)@,
            center == observer.chunk(),
            -0x800_0000 <= center.x <= 0x800_0000,
            -0x800_0000 <= center.y <= 0x800_0000,
            -0x800_0000 <= center.z <= 0x800_0000,
            k <= resident@.len(),
            former.len() <= queue@.len() < cap,
            queue@.no_duplicates(),
            queue@.take(former.len() as int) == former,
            forall|i: int|
                former.len() <= i < queue@.len() ==> {
                    let p = #[trigger] queue@[i];
                    resident@.to_set().contains(p) && outside_box(observer, r as int, p)
                },
            forall|j: int|
                0 <= j < k && outside_box(observer, r as int, #[trigger] resident@[j])
                    ==> queue@.contains(resident@[j]),
        decreases resident@.len() - k,
    {
        let p = resident[k];
        let ghost before_push = queue@;
        assert(resident@.to_set().contains(p)) by {
            assert(resident@.contains(resident@[k as int]));
        }
        let outside = p.x < center.x - r || p.x > center.x + r || p.y < center.y - r || p.y
            > center.y + r || p.z < center.z - r || p.z > center.z + r;
        if outside && !queue_contains(queue, &p) {
            queue.push_back(p);
            proof {
                lemma_push_no_duplicates(before_push, p);
                assert(queue@.take(former.len() as int) =~= former);
                assert(queue@[before_push.len() as int] == p);
                assert forall|j: int|
                    0 <= j < k + 1 && outside_box(
                        observer,
                        r as int,
                        #[trigger] resident@[j],
                    ) implies queue@.contains(resident@[j]) by {
                    if j < k {
                        let i = choose|i: int|
                            0 <= i < before_push.len() && before_push[i] == resident@[j];
                        assert(queue@[i] == resident@[j]);
                    }
                }
            }
            if queue.len() >= cap {
                return;
            }
        }
        k += 1;
    }
    proof {
        assert forall|p: ChunkPosition|
            #[trigger] resident@.to_set().contains(p) && outside_box(
                observer,
                r as int,
                p,
            ) implies queue@.contains(p) by {
            let j = choose|j: int| 0 <= j < resident@.len() && resident@[j] == p;
            assert(outside_box(observer, r as int, resident@[j]));
        }
    }
}

impl Chunks {
    /// Queues resident chunks that lie outside the cube of the render
    /// distance around the observer for eviction, until the queue is full.
    /// Which of them are queued first is left open.
    pub fn update_unload_data_queue(&mut self)
        requires
            old(self).wf(),
        ensures
            final(self).wf(),
            final(self)@ == (ChunksView {
                data_unload_queue: final(self)@.data_unload_queue,
                ..old(self)@
            }),
            holds_outsiders(
                final(self)@.data_unload_queue,
                old(self)@.data_unload_queue,
                old(self)@.data.dom(),
                old(self)@.position,
                old(self)@.render_distance,
                MAX_DATA_UNLOAD_QUEUE as nat,
            ),
    {
        let resident = self.resident_data_positions();
        proof {
            assert(resident@.to_set() =~= self@.data.dom());
        }
        queue_outsiders(
            &mut self.chunk_data_unload_queue,
            &resident,
            self.position,
            self.render_distance,
            MAX_DATA_UNLOAD_QUEUE,
        );
    }

    /// Queues resident meshes that lie outside the cube of the render
    /// distance around the observer for eviction, until the queue is full.
    /// Which of them are queued first is left open.
    pub fn update_unload_mesh_queue(&mut self)
        requires
            old(self).wf(),
        ensures
            final(self).wf(),
            final(self)@ == (ChunksView {
                mesh_unload_queue: final(self)@.mesh_unload_queue,
                ..old(self)@
            }),
            holds_outsiders(
                final(self)@.mesh_unload_queue,
                old(self)@.mesh_unload_queue,
                old(self)@.meshes.dom(),
                old(self)@.position,
                old(self)@.render_distance,
                MAX_MESH_UNLOAD_QUEUE as nat,
            ),
    {
        let resident = self.resident_mesh_positions();
        proof {
            assert(resident@.to_set() =~= self@.meshes.dom());
        }
        queue_outsiders(
            &mut self.chunk_mesh_unload_queue,
            &resident,
            self.position,
            self.render_distance,
            MAX_MESH_UNLOAD_QUEUE,
        );
    }

    /// Evicts every chunk that waits in the queue: it leaves the resident
    /// chunks and goes back to the pool.
    pub fn unload_data_queue(&mut self)
        requires
            old(self).wf(),
        ensures
            final(self).wf(),
            forall|p: ChunkPosition|
                #[trigger] final(self)@.data.contains_key(p) <==> old(self)@.data.contains_key(p)
                    && !old(self)@.data_unload_queue.contains(p),
            forall|p: ChunkPosition|
                final(self)@.data.contains_key(p) ==> #[trigger] final(self)@.data[p]
                    == old(self)@.data[p],
            final(self)@ == (ChunksView {
                data: final(self)@.data,
                data_unload_queue: Seq::empty(),
                free_chunks: (old(self)@.free_chunks + old(self)@.data.dom().len()
                    - final(self)@.data.dom().len()) as nat,
                ..old(self)@
            }),
            final(self)@.data.dom().len() <= old(self)@.data.dom().len(),
    {
        let ghost before = self@;
        let ghost queue = self@.data_unload_queue;
        let mut done: usize = 0;
        while self.chunk_data_unload_queue.len() > 0
            invariant
                self.wf(),
                before.wf(),
                queue == before.data_unload_queue,
                done <= queue.len(),
                self@.data_unload_queue == queue.skip(done as int),
                forall|p: ChunkPosition|
                    #[trigger] self@.data.contains_key(p) <==> before.data.contains_key(p)
                        && !queue.take(done as int).contains(p),
                forall|p: ChunkPosition|
                    self@.data.contains_key(p) ==> #[trigger] self@.data[p] == before.data[p],
                self@.data.dom().len() <= before.data.dom().len(),
                self@ == (ChunksView {
                    data: self@.data,
                    data_unload_queue: self@.data_unload_queue,
                    free_chunks: (before.free_chunks + before.data.dom().len()
                        - self@.data.dom().len()) as nat,
                    ..before
                }),
            decreases queue.len() - done,
        {
            let ghost at_pop = self@;
            let popped = self.chunk_data_unload_queue.pop_front();
            let chunk_pos = popped.unwrap();
            proof {
                assert(chunk_pos == queue[done as int]);
                assert(self@.data_unload_queue == queue.skip(done + 1));
                assert(self@.data_unload_queue.no_duplicates());
                lemma_positions_remove(self.chunk_data_map@, chunk_pos);
                lemma_positions_len(self.chunk_data_map@);
                lemma_key_roundtrip(chunk_pos);
                assert(queue.take(done + 1) =~= queue.take(done as int) + seq![chunk_pos]);
                assert(seq![chunk_pos][0] == chunk_pos);
            }
            let removed = self.chunk_data_map.remove(&chunk_pos.to_key());
            proof {
                lemma_positions_len(self.chunk_data_map@);
            }
            let ghost data_now = self@.data;
            assert(data_now == at_pop.data.remove(chunk_pos));
            if let Some(chunk_data) = removed {
                self.chunk_pool.return_to_pool(chunk_data);
            }
            proof {
                assert(self@.data == data_now);
                assert forall|p: ChunkPosition|
                    #[trigger] self@.data.contains_key(p) <==> before.data.contains_key(p)
                        && !queue.take(done + 1).contains(p) by {
                    lemma_contains_in_concat(queue.take(done as int), seq![chunk_pos], p);
                    assert(at_pop.data.contains_key(p) <==> before.data.contains_key(p)
                        && !queue.take(done as int).contains(p));
                }
            }
            done += 1;
        }
        proof {
            assert(queue.take(done as int) =~= queue);
            assert(self@.data_unload_queue =~= Seq::empty());
        }
    }
}

/// A buffer that an eviction took out of the arena, with the handle it
/// lived under, for the renderer to destroy.
pub struct ReleasedBuffer {
    pub handle: Index,
    pub buffer: GpuBuffer,
}

/// Whether a mesh refers to the buffer under `handle`.
pub open spec fn mesh_uses(mesh: ChunkMesh, handle: Index) -> bool {
    mesh.vertex_buffer == Some(handle) || mesh.index_buffer == Some(handle)
}

/// Whether `handle` belongs to the mesh of one of the queued positions.
pub open spec fn is_evicted_handle(
    meshes: Map<ChunkPosition, ChunkMesh>,
    queue: Seq<ChunkPosition>,
    handle: Index,
) -> bool {
    exists|i: int|
        0 <= i < queue.len() && meshes.contains_key(#[trigger] queue[i]) && mesh_uses(
            meshes[queue[i]],
            handle,
        )
}

/// Whether the list names the buffer that lived under `handle`.
pub open spec fn is_released(released: Seq<ReleasedBuffer>, handle: Index) -> bool {
    exists|j: int| 0 <= j < released.len() && (#[trigger] released[j]).handle == handle
}

/// Takes the buffer under `handle` out of the arena, where a handle is given
/// and live, and notes it in `released`.
fn release_handle(
    gpu_resources: &mut GpuResources,
    handle: Option<Index>,
    released: &mut Vec<ReleasedBuffer>,
)
    ensures
        final(gpu_resources).slots() == match handle {
            Some(h) => old(gpu_resources).slots().remove(h),
            None => old(gpu_resources).slots(),
        },
        final(released)@ == match handle {
            Some(h) => if old(gpu_resources).slots().contains_key(h) {
                old(released)@.push(
                    ReleasedBuffer { handle: h, buffer: old(gpu_resources).slots()[h] },
                )
            } else {
                old(released)@
            },
            None => old(released)@,
        },
        stays_retired(old(gpu_resources).retired(), final(gpu_resources).retired()),
        handle matches Some(h) ==> (old(gpu_resources).slots().contains_key(h)
            ==> final(gpu_resources).retired().contains(h)),
{
    if let Some(key) = handle {
        if let Some(buffer) = gpu_resources.remove(key) {
            released.push(ReleasedBuffer { handle: key, buffer });
        }
    }
}

/// What holds of the buffers released so far, against the arena as it was
/// when the eviction began: each was live and belonged to an evicted mesh,
/// none is named twice, and every live handle of an evicted mesh is named.
pub open spec fn released_are(
    released: Seq<ReleasedBuffer>,
    slots: Map<Index, GpuBuffer>,
    meshes: Map<ChunkPosition, ChunkMesh>,
    queue: Seq<ChunkPosition>,
) -> bool {
    &&& forall|j: int|
        0 <= j < released.len() ==> {
            let r = #[trigger] released[j];
            &&& slots.contains_key(r.handle)
            &&& slots[r.handle] == r.buffer
            &&& is_evicted_handle(meshes, queue, r.handle)
        }
    &&& forall|i: int, j: int|
        0 <= i < released.len() && 0 <= j < released.len() && i != j
            ==> (#[trigger] released[i]).handle != (#[trigger] released[j]).handle
    &&& forall|h: Index|
        slots.contains_key(h) && #[trigger] is_evicted_handle(meshes, queue, h) ==> is_released(
            released,
            h,
        )
}

/// What holds of the arena after an eviction: it lost the handles of the
/// evicted meshes, and nothing else changed.
pub open spec fn slots_after_eviction(
    now: Map<Index, GpuBuffer>,
    slots: Map<Index, GpuBuffer>,
    meshes: Map<ChunkPosition, ChunkMesh>,
    queue: Seq<ChunkPosition>,
) -> bool {
    &&& forall|h: Index|
        #[trigger] now.contains_key(h) <==> slots.contains_key(h) && !is_evicted_handle(
            meshes,
            queue,
            h,
        )
    &&& forall|h: Index| now.contains_key(h) ==> #[trigger] now[h] == slots[h]
}

/// What holds of the spent handles after an eviction: those spent before
/// are spent still, and so is every handle of an evicted mesh that was live.
pub open spec fn retired_after_eviction(
    now: Set<Index>,
    retired: Set<Index>,
    slots: Map<Index, GpuBuffer>,
    meshes: Map<ChunkPosition, ChunkMesh>,
    queue: Seq<ChunkPosition>,
) -> bool {
    forall|h: Index|
        retired.contains(h) || (slots.contains_key(h) && is_evicted_handle(meshes, queue, h))
            ==> #[trigger] now.contains(h)
}

/// A handle belongs to a mesh of the first `n + 1` queued positions where it
/// belongs to one of the first `n`, or to the mesh of the one after them.
proof fn lemma_evicted_handle_step(
    meshes: Map<ChunkPosition, ChunkMesh>,
    queue: Seq<ChunkPosition>,
    n: int,
    handle: Index,
)
    requires
        0 <= n < queue.len(),
    ensures
        is_evicted_handle(meshes, queue.take(n + 1), handle) <==> is_evicted_handle(
            meshes,
            queue.take(n),
            handle,
        ) || (meshes.contains_key(queue[n]) && mesh_uses(meshes[queue[n]], handle)),
{
    let short = queue.take(n);
    let long = queue.take(n + 1);
    if is_evicted_handle(meshes, short, handle) {
        let i = choose|i: int|
            0 <= i < short.len() && meshes.contains_key(#[trigger] short[i]) && mesh_uses(
                meshes[short[i]],
                handle,
            );
        assert(long[i] == short[i]);
    }
    if meshes.contains_key(queue[n]) && mesh_uses(meshes[queue[n]], handle) {
        assert(long[n] == queue[n]);
    }
    if is_evicted_handle(meshes, long, handle) {
        let i = choose|i: int|
            0 <= i < long.len() && meshes.contains_key(#[trigger] long[i]) && mesh_uses(
                meshes[long[i]],
                handle,
            );
        if i < n {
            assert(short[i] == long[i]);
        } else {
            assert(long[i] == queue[n]);
        }
    }
}

impl Chunks {
    /// Evicts every mesh that waits in the queue: it leaves the resident
    /// meshes, its buffers leave the arena, and the mesh goes back to the
    /// pool. The buffers taken out are handed back for the renderer to
    /// destroy.
    pub fn unload_mesh_queue(&mut self, gpu_resources: &mut GpuResources) -> (released: Vec<
        ReleasedBuffer,
    >)
        requires
            old(self).wf(),
        ensures
            final(self).wf(),
            forall|p: ChunkPosition|
                #[trigger] final(self)@.meshes.contains_key(p) <==> old(self)@.meshes.contains_key(
                    p,
                ) && !old(self)@.mesh_unload_queue.contains(p),
            forall|p: ChunkPosition|
                final(self)@.meshes.contains_key(p) ==> #[trigger] final(self)@.meshes[p]
                    == old(self)@.meshes[p],
            final(self)@ == (ChunksView {
                meshes: final(self)@.meshes,
                mesh_unload_queue: Seq::empty(),
                free_meshes: (old(self)@.free_meshes + old(self)@.meshes.dom().len()
                    - final(self)@.meshes.dom().len()) as nat,
                ..old(self)@
            }),
            final(self)@.meshes.dom().len() <= old(self)@.meshes.dom().len(),
            slots_after_eviction(
                final(gpu_resources).slots(),
                old(gpu_resources).slots(),
                old(self)@.meshes,
                old(self)@.mesh_unload_queue,
            ),
            forall|i: int, h: Index|
                0 <= i < old(self)@.mesh_unload_queue.len() && old(self)@.meshes.contains_key(
                    #[trigger] old(self)@.mesh_unload_queue[i],
                ) && mesh_uses(old(self)@.meshes[old(self)@.mesh_unload_queue[i]], h)
                    ==> !(#[trigger] final(gpu_resources).slots().contains_key(h)),
            released_are(
                released@,
                old(gpu_resources).slots(),
                old(self)@.meshes,
                old(self)@.mesh_unload_queue,
            ),
            retired_after_eviction(
                final(gpu_resources).retired(),
                old(gpu_resources).retired(),
                old(gpu_resources).slots(),
                old(self)@.meshes,
                old(self)@.mesh_unload_queue,
            ),
    {
        let ghost before = self@;
        let ghost queue = self@.mesh_unload_queue;
        let ghost slots = gpu_resources.slots();
        let ghost retired = gpu_resources.retired();
        let mut released: Vec<ReleasedBuffer> = Vec::new();
        let mut done: usize = 0;
        while self.chunk_mesh_unload_queue.len() > 0
            invariant
                self.wf(),
                before.wf(),
                queue == before.mesh_unload_queue,
                done <= queue.len(),
                self@.mesh_unload_queue == queue.skip(done as int),
                forall|p: ChunkPosition|
                    #[trigger] self@.meshes.contains_key(p) <==> before.meshes.contains_key(p)
                        && !queue.take(done as int).contains(p),
                forall|p: ChunkPosition|
                    self@.meshes.contains_key(p) ==> #[trigger] self@.meshes[p] == before.meshes[p],
                self@.meshes.dom().len() <= before.meshes.dom().len(),
                self@ == (ChunksView {
                    meshes: self@.meshes,
                    mesh_unload_queue: self@.mesh_unload_queue,
                    free_meshes: (before.free_meshes + before.meshes.dom().len()
                        - self@.meshes.dom().len()) as nat,
                    ..before
                }),
                slots_after_eviction(
                    gpu_resources.slots(),
                    slots,
                    before.meshes,
                    queue.take(done as int),
                ),
                released_are(released@, slots, before.meshes, queue.take(done as int)),
                retired_after_eviction(
                    gpu_resources.retired(),
                    retired,
                    slots,
                    before.meshes,
                    queue.take(done as int),
                ),
            decreases queue.len() - done,
        {
            let ghost at_pop = self@;
            let popped = self.chunk_mesh_unload_queue.pop_front();
            let chunk_pos = popped.unwrap();
            proof {
                assert(chunk_pos == queue[done as int]);
                assert(self@.mesh_unload_queue == queue.skip(done + 1));
                assert(self@.mesh_unload_queue.no_duplicates());
                lemma_positions_remove(self.chunk_mesh_map@, chunk_pos);
                lemma_positions_len(self.chunk_mesh_map@);
                lemma_key_roundtrip(chunk_pos);
                assert(queue.take(done + 1) =~= queue.take(done as int) + seq![chunk_pos]);
                assert(seq![chunk_pos][0] == chunk_pos);
                assert(!queue.take(done as int).contains(chunk_pos)) by {
                    if queue.take(done as int).contains(chunk_pos) {
                        let j = choose|j: int|
                            0 <= j < done && queue.take(done as int)[j] == chunk_pos;
                        assert(queue[j] == queue[done as int]);
                    }
                }
            }
            let removed = self.chunk_mesh_map.remove(&chunk_pos.to_key());
            proof {
                lemma_positions_len(self.chunk_mesh_map@);
            }
            let ghost meshes_now = self@.meshes;
            let ghost slots_then = gpu_resources.slots();
            let ghost released_then = released@;
            let ghost retired_then = gpu_resources.retired();
            assert(meshes_now == at_pop.meshes.remove(chunk_pos));
            if let Some(chunk_mesh) = removed {
                assert(at_pop.meshes.contains_key(chunk_pos));
                assert(at_pop.meshes[chunk_pos] == chunk_mesh);
                assert(before.meshes.contains_key(chunk_pos) && chunk_mesh
                    == before.meshes[chunk_pos]);
                release_handle(gpu_resources, chunk_mesh.vertex_buffer, &mut released);
                let ghost retired_mid = gpu_resources.retired();
                release_handle(gpu_resources, chunk_mesh.index_buffer, &mut released);
                self.chunk_mesh_pool.return_to_pool(chunk_mesh);
                proof {
                    lemma_eviction_step(
                        gpu_resources.slots(),
                        slots_then,
                        released@,
                        released_then,
                        slots,
                        before.meshes,
                        queue,
                        done as int,
                    );
                    lemma_eviction_retires(
                        gpu_resources.retired(),
                        retired_mid,
                        retired_then,
                        slots_then,
                        retired,
                        slots,
                        before.meshes,
                        queue,
                        done as int,
                    );
                }
            } else {
                proof {
                    assert(!before.meshes.contains_key(chunk_pos));
                    lemma_eviction_skip(
                        gpu_resources.slots(),
                        released@,
                        slots,
                        before.meshes,
                        queue,
                        done as int,
                    );
                    assert forall|h: Index|
                        is_evicted_handle(before.meshes, queue.take(done + 1), h)
                            <==> is_evicted_handle(before.meshes, queue.take(done as int), h) by {
                        lemma_evicted_handle_step(before.meshes, queue, done as int, h);
                    }
                }
            }
            proof {
                assert(self@.meshes == meshes_now);
                assert forall|p: ChunkPosition|
                    #[trigger] self@.meshes.contains_key(p) <==> before.meshes.contains_key(p)
                        && !queue.take(done + 1).contains(p) by {
                    lemma_contains_in_concat(queue.take(done as int), seq![chunk_pos], p);
                    assert(at_pop.meshes.contains_key(p) <==> before.meshes.contains_key(p)
                        && !queue.take(done as int).contains(p));
                }
            }
            done += 1;
        }
        proof {
            assert(queue.take(done as int) =~= queue);
            assert(self@.mesh_unload_queue =~= Seq::empty());
            assert forall|i: int, h: Index|
                0 <= i < queue.len() && before.meshes.contains_key(#[trigger] queue[i])
                    && mesh_uses(
                    before.meshes[queue[i]],
                    h,
                ) implies !(#[trigger] gpu_resources.slots().contains_key(h)) by {
                assert(is_evicted_handle(before.meshes, queue, h));
            }
        }
        released
    }
}

/// One step of an eviction that found no mesh at the position changes
/// neither the arena nor the list of released buffers.
proof fn lemma_eviction_skip(
    now: Map<Index, GpuBuffer>,
    released: Seq<ReleasedBuffer>,
    slots: Map<Index, GpuBuffer>,
    meshes: Map<ChunkPosition, ChunkMesh>,
    queue: Seq<ChunkPosition>,
    n: int,
)
    requires
        0 <= n < queue.len(),
        !meshes.contains_key(queue[n]),
        slots_after_eviction(now, slots, meshes, queue.take(n)),
        released_are(released, slots, meshes, queue.take(n)),
    ensures
        slots_after_eviction(now, slots, meshes, queue.take(n + 1)),
        released_are(released, slots, meshes, queue.take(n + 1)),
{
    assert forall|h: Index|
        is_evicted_handle(meshes, queue.take(n + 1), h) <==> is_evicted_handle(
            meshes,
            queue.take(n),
            h,
        ) by {
        lemma_evicted_handle_step(meshes, queue, n, h);
    }
    assert forall|j: int| 0 <= j < released.len() implies {
        let r = #[trigger] released[j];
        &&& slots.contains_key(r.handle)
        &&& slots[r.handle] == r.buffer
        &&& is_evicted_handle(meshes, queue.take(n + 1), r.handle)
    } by {
        assert(is_evicted_handle(meshes, queue.take(n), released[j].handle));
    }
    assert forall|h: Index|
        slots.contains_key(h) && #[trigger] is_evicted_handle(
            meshes,
            queue.take(n + 1),
            h,
        ) implies is_released(released, h) by {
        assert(is_evicted_handle(meshes, queue.take(n), h));
    }
}

/// The arena after one handle was released from it.
pub open spec fn released_from(slots: Map<Index, GpuBuffer>, handle: Option<Index>) -> Map<
    Index,
    GpuBuffer,
> {
    match handle {
        Some(h) => slots.remove(h),
        None => slots,
    }
}

/// The list of released buffers after one handle was released from the
/// arena `slots`.
pub open spec fn released_with(
    released: Seq<ReleasedBuffer>,
    slots: Map<Index, GpuBuffer>,
    handle: Option<Index>,
) -> Seq<ReleasedBuffer> {
    match handle {
        Some(h) => if slots.contains_key(h) {
            released.push(ReleasedBuffer { handle: h, buffer: slots[h] })
        } else {
            released
        },
        None => released,
    }
}

/// One step of an eviction that found a mesh at the position: after the two
/// handles of the mesh were released, the arena and the list of released
/// buffers account for the position as well.
proof fn lemma_eviction_step(
    now: Map<Index, GpuBuffer>,
    then: Map<Index, GpuBuffer>,
    released: Seq<ReleasedBuffer>,
    released_then: Seq<ReleasedBuffer>,
    slots: Map<Index, GpuBuffer>,
    meshes: Map<ChunkPosition, ChunkMesh>,
    queue: Seq<ChunkPosition>,
    n: int,
)
    requires
        0 <= n < queue.len(),
        meshes.contains_key(queue[n]),
        slots_after_eviction(then, slots, meshes, queue.take(n)),
        released_are(released_then, slots, meshes, queue.take(n)),
        now == released_from(
            released_from(then, meshes[queue[n]].vertex_buffer),
            meshes[queue[n]].index_buffer,
        ),
        released == released_with(
            released_with(released_then, then, meshes[queue[n]].vertex_buffer),
            released_from(then, meshes[queue[n]].vertex_buffer),
            meshes[queue[n]].index_buffer,
        ),
    ensures
        slots_after_eviction(now, slots, meshes, queue.take(n + 1)),
        released_are(released, slots, meshes, queue.take(n + 1)),
{
    let mesh = meshes[queue[n]];
    let short = queue.take(n);
    let long = queue.take(n + 1);
    let mid = released_from(then, mesh.vertex_buffer);
    let released_mid = released_with(released_then, then, mesh.vertex_buffer);
    assert forall|h: Index|
        is_evicted_handle(meshes, long, h) <==> is_evicted_handle(meshes, short, h) || mesh_uses(
            mesh,
            h,
        ) by {
        lemma_evicted_handle_step(meshes, queue, n, h);
    }
    assert forall|h: Index|
        #[trigger] now.contains_key(h) <==> slots.contains_key(h) && !is_evicted_handle(
            meshes,
            long,
            h,
        ) by {
        lemma_evicted_handle_step(meshes, queue, n, h);
        assert(then.contains_key(h) <==> slots.contains_key(h) && !is_evicted_handle(
            meshes,
            short,
            h,
        ));
        assert(mid.contains_key(h) <==> then.contains_key(h) && mesh.vertex_buffer != Some(h));
        assert(now.contains_key(h) <==> mid.contains_key(h) && mesh.index_buffer != Some(h));
    }
    assert forall|h: Index| now.contains_key(h) implies #[trigger] now[h] == slots[h] by {
        assert(then.contains_key(h));
    }
    // What was released before stays released, and stays apart from what is new.
    assert forall|j: int| 0 <= j < released_then.len() implies !then.contains_key(
        (#[trigger] released_then[j]).handle,
    ) by {
        assert(is_evicted_handle(meshes, short, released_then[j].handle));
    }
    assert forall|j: int| 0 <= j < released.len() implies {
        let r = #[trigger] released[j];
        &&& slots.contains_key(r.handle)
        &&& slots[r.handle] == r.buffer
        &&& is_evicted_handle(meshes, long, r.handle)
    } by {
        lemma_evicted_handle_step(meshes, queue, n, released[j].handle);
        if j < released_then.len() {
            assert(released[j] == released_then[j]);
            assert(is_evicted_handle(meshes, short, released_then[j].handle));
        } else if j < released_mid.len() {
            assert(released[j] == released_mid[j]);
            assert(then.contains_key(released[j].handle));
            assert(mesh_uses(mesh, released[j].handle));
        } else {
            assert(mid.contains_key(released[j].handle));
            assert(then.contains_key(released[j].handle));
            assert(mesh_uses(mesh, released[j].handle));
        }
    }
    assert forall|i: int, j: int|
        0 <= i < released.len() && 0 <= j < released.len() && i
            != j implies (#[trigger] released[i]).handle != (#[trigger] released[j]).handle by {
        lemma_release_order(released, released_mid, released_then, then, mid, mesh, i, j);
    }
    assert forall|h: Index|
        slots.contains_key(h) && #[trigger] is_evicted_handle(meshes, long, h) implies is_released(
        released,
        h,
    ) by {
        lemma_evicted_handle_step(meshes, queue, n, h);
        if is_evicted_handle(meshes, short, h) {
            assert(is_released(released_then, h));
            let j = choose|j: int|
                0 <= j < released_then.len() && (#[trigger] released_then[j]).handle == h;
            assert(released[j].handle == h);
        } else {
            assert(mesh_uses(mesh, h));
            assert(then.contains_key(h));
            if mesh.vertex_buffer == Some(h) {
                assert(released_mid[released_then.len() as int].handle == h);
                assert(released[released_then.len() as int].handle == h);
            } else {
                assert(mesh.index_buffer == Some(h));
                assert(mid.contains_key(h));
                assert(released[released_mid.len() as int].handle == h);
            }
        }
    }
}

/// One step of an eviction that found a mesh at the position: after the two
/// handles of the mesh were released, the spent handles account for the
/// position as well.
proof fn lemma_eviction_retires(
    now: Set<Index>,
    mid: Set<Index>,
    then: Set<Index>,
    slots_then: Map<Index, GpuBuffer>,
    retired: Set<Index>,
    slots: Map<Index, GpuBuffer>,
    meshes: Map<ChunkPosition, ChunkMesh>,
    queue: Seq<ChunkPosition>,
    n: int,
)
    requires
        0 <= n < queue.len(),
        meshes.contains_key(queue[n]),
        slots_after_eviction(slots_then, slots, meshes, queue.take(n)),
        retired_after_eviction(then, retired, slots, meshes, queue.take(n)),
        stays_retired(then, mid),
        stays_retired(mid, now),
        meshes[queue[n]].vertex_buffer matches Some(h) ==> (slots_then.contains_key(h)
            ==> mid.contains(h)),
        meshes[queue[n]].index_buffer matches Some(h) ==> (released_from(
            slots_then,
            meshes[queue[n]].vertex_buffer,
        ).contains_key(h) ==> now.contains(h)),
    ensures
        retired_after_eviction(now, retired, slots, meshes, queue.take(n + 1)),
{
    let mesh = meshes[queue[n]];
    let short = queue.take(n);
    let long = queue.take(n + 1);
    assert forall|h: Index|
        retired.contains(h) || (slots.contains_key(h) && is_evicted_handle(
            meshes,
            long,
            h,
        )) implies #[trigger] now.contains(h) by {
        lemma_evicted_handle_step(meshes, queue, n, h);
        if retired.contains(h) || (slots.contains_key(h) && is_evicted_handle(meshes, short, h)) {
            assert(then.contains(h));
            assert(mid.contains(h));
        } else {
            assert(mesh_uses(mesh, h));
            assert(slots_then.contains_key(h));
            if mesh.vertex_buffer == Some(h) {
                assert(mid.contains(h));
            } else {
                assert(mesh.index_buffer == Some(h));
            }
        }
    }
}

/// Two buffers at different places of the list of released buffers lived
/// under different handles.
proof fn lemma_release_order(
    released: Seq<ReleasedBuffer>,
    released_mid: Seq<ReleasedBuffer>,
    released_then: Seq<ReleasedBuffer>,
    then: Map<Index, GpuBuffer>,
    mid: Map<Index, GpuBuffer>,
    mesh: ChunkMesh,
    i: int,
    j: int,
)
    requires
        0 <= i < released.len(),
        0 <= j < released.len(),
        i != j,
        mid == released_from(then, mesh.vertex_buffer),
        released_mid == released_with(released_then, then, mesh.vertex_buffer),
        released == released_with(released_mid, mid, mesh.index_buffer),
        forall|a: int, b: int|
            0 <= a < released_then.len() && 0 <= b < released_then.len() && a != b
                ==> (#[trigger] released_then[a]).handle != (#[trigger] released_then[b]).handle,
        forall|a: int|
            0 <= a < released_then.len() ==> !then.contains_key(
                (#[trigger] released_then[a]).handle,
            ),
    ensures
        released[i].handle != released[j].handle,
{
    let lo = if i < j {
        i
    } else {
        j
    };
    let hi = if i < j {
        j
    } else {
        i
    };
    if hi < released_then.len() {
        assert(released[lo] == released_then[lo] && released[hi] == released_then[hi]);
    } else if hi < released_mid.len() {
        // `hi` is the vertex buffer, live in `then`.
        assert(then.contains_key(released[hi].handle));
        assert(released[lo] == released_then[lo]);
    } else {
        // `hi` is the index buffer, live in `mid`, hence in `then`.
        assert(mid.contains_key(released[hi].handle));
        assert(then.contains_key(released[hi].handle));
        if lo < released_then.len() {
            assert(released[lo] == released_then[lo]);
        } else {
            // `lo` is the vertex buffer, which `mid` no longer holds.
            assert(!mid.contains_key(released[lo].handle));
        }
    }
}

} // verus!
