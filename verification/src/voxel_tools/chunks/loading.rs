//! Bringing chunks in: generating those that wait, and queueing the
//! positions around the observer for generation and for meshing.

use crate::voxel_tools::chunk::lemma_generated_from_blank;
use crate::voxel_tools::chunk::Chunk;
use crate::voxel_tools::chunks::Chunks;
use crate::voxel_tools::chunks::ChunksView;
use crate::voxel_tools::chunks::DEFAULT_MAX_CHUNK_DATAS;
use crate::voxel_tools::chunks::DEFAULT_MAX_MESH_DATAS;
use crate::voxel_tools::chunks::MAX_DATA_QUEUE;
use crate::voxel_tools::chunks::MAX_MESH_QUEUE;
use crate::voxel_tools::chunks::within_range;
use crate::voxel_tools::keyed::lemma_positions_insert;
use crate::voxel_tools::keyed::lemma_positions_len;
use crate::voxel_tools::pool::after_take;
use crate::voxel_tools::position::ChunkPosition;
use crate::voxel_tools::schedule::in_box;
use crate::voxel_tools::schedule::lemma_contains_in_concat;
use crate::voxel_tools::schedule::lemma_neighborhood;
use crate::voxel_tools::schedule::lemma_neighborhood_is_whole;
use crate::voxel_tools::schedule::lemma_push_no_duplicates;
use crate::voxel_tools::schedule::lemma_refreshed;
use crate::voxel_tools::schedule::lemma_refresh_ends;
use crate::voxel_tools::schedule::lemma_walk_rest;
use crate::voxel_tools::schedule::lemma_walked_grows;
use crate::voxel_tools::schedule::neighborhood;
use crate::voxel_tools::schedule::walkable;
use crate::voxel_tools::schedule::walked;
use crate::voxel_tools::schedule::wanted_and_new;
use vstd::prelude::*;

verus! {

broadcast use vstd::std_specs::hash::group_hash_axioms;

/// The free count of a pool after `n` values were taken out of it.
pub open spec fn after_takes(free: nat, n: nat) -> nat {
    if free >= n {
        (free - n) as nat
    } else {
        0
    }
}

/// Whether the chunk at `p` is resident and is what generation at its own
/// origin leaves.
pub open spec fn generated_in<F: Fn(i64, i64, i64) -> bool>(
    data: Map<ChunkPosition, Chunk>,
    p: ChunkPosition,
    is_solid_at: &F,
) -> bool {
    data.contains_key(p) && data[p].generated_at(p.world(), is_solid_at)
}

impl Chunks {
    /// Generates the chunk at `chunk_pos` into a chunk from the pool, and
    /// makes it resident.
    pub fn build_chunk_data<F: Fn(i64, i64, i64) -> bool>(
        &mut self,
        chunk_pos: ChunkPosition,
        is_solid_at: &F,
    )
        requires
            old(self).wf(),
            !old(self)@.data_load_queue.contains(chunk_pos),
            forall|x: i64, y: i64, z: i64| is_solid_at.requires((x, y, z)),
        ensures
            final(self).wf(),
            final(self)@.data.contains_key(chunk_pos),
            final(self)@.data[chunk_pos].generated_at(chunk_pos.world(), is_solid_at),
            final(self)@ == (ChunksView {
                data: old(self)@.data.insert(chunk_pos, final(self)@.data[chunk_pos]),
                free_chunks: after_take(old(self)@.free_chunks),
                ..old(self)@
            }),
    {
        let mut chunk = self.chunk_pool.checkout();
        let chunk_world_pos = Self::chunk_to_world(chunk_pos);
        let ghost blank = chunk;
        chunk.build_voxel_data(&chunk_world_pos, is_solid_at);
        proof {
            lemma_generated_from_blank(is_solid_at, chunk_world_pos, blank, chunk);
            lemma_positions_insert(self.chunk_data_map@, chunk_pos, chunk);
            lemma_positions_len(self.chunk_data_map@);
        }
        self.chunk_data_map.insert(chunk_pos.to_key(), chunk);
        proof {
            lemma_positions_len(self.chunk_data_map@);
            assert(vstd::std_specs::hash::spec_hash_map_len(&self.chunk_data_map)
                == self.chunk_data_map@.len());
            assert forall|i: int|
                0 <= i < self@.data_load_queue.len() implies !self@.data.contains_key(
                #[trigger] self@.data_load_queue[i],
            ) by {
                assert(old(self)@.data_load_queue.contains(old(self)@.data_load_queue[i]));
            }
        }
    }

    /// Generates every chunk that waits in the queue, first in, first out.
    pub fn build_chunk_data_in_queue<F: Fn(i64, i64, i64) -> bool>(&mut self, is_solid_at: &F)
        requires
            old(self).wf(),
            forall|x: i64, y: i64, z: i64| is_solid_at.requires((x, y, z)),
        ensures
            final(self).wf(),
            forall|p: ChunkPosition|
                #[trigger] final(self)@.data.contains_key(p) <==> old(self)@.data.contains_key(p)
                    || old(self)@.data_load_queue.contains(p),
            forall|p: ChunkPosition|
                old(self)@.data.contains_key(p) ==> #[trigger] final(self)@.data[p]
                    == old(self)@.data[p],
            forall|i: int|
                0 <= i < old(self)@.data_load_queue.len() ==> generated_in(
                    final(self)@.data,
                    #[trigger] old(self)@.data_load_queue[i],
                    is_solid_at,
                ),
            final(self)@ == (ChunksView {
                data: final(self)@.data,
                data_load_queue: Seq::empty(),
                free_chunks: after_takes(
                    old(self)@.free_chunks,
                    old(self)@.data_load_queue.len(),
                ),
                ..old(self)@
            }),
    {
        let ghost before = self@;
        let ghost queue = self@.data_load_queue;
        let mut done: usize = 0;
        while self.chunk_data_load_queue.len() > 0
            invariant
                self.wf(),
                before.wf(),
                queue == before.data_load_queue,
                forall|x: i64, y: i64, z: i64| is_solid_at.requires((x, y, z)),
                done <= queue.len(),
                self@.data_load_queue == queue.skip(done as int),
                forall|p: ChunkPosition|
                    #[trigger] self@.data.contains_key(p) <==> before.data.contains_key(p)
                        || queue.take(done as int).contains(p),
                forall|p: ChunkPosition|
                    before.data.contains_key(p) ==> #[trigger] self@.data[p] == before.data[p],
                forall|i: int|
                    0 <= i < done ==> generated_in(self@.data, #[trigger] queue[i], is_solid_at),
                self@ == (ChunksView {
                    data: self@.data,
                    data_load_queue: self@.data_load_queue,
                    free_chunks: after_takes(before.free_chunks, done as nat),
                    ..before
                }),
            decreases queue.len() - done,
        {
            let ghost at_pop = self@;
            let popped = self.chunk_data_load_queue.pop_front();
            let chunk_pos = popped.unwrap();
            proof {
                assert(chunk_pos == queue[done as int]);
                assert(self@.data_load_queue == queue.skip(done + 1));
                assert(!self@.data_load_queue.contains(chunk_pos)) by {
                    if self@.data_load_queue.contains(chunk_pos) {
                        let j = choose|j: int|
                            0 <= j < self@.data_load_queue.len() && self@.data_load_queue[j]
                                == chunk_pos;
                        assert(queue[done + 1 + j] == chunk_pos);
                    }
                }
                assert forall|i: int|
                    0 <= i < self@.data_load_queue.len() implies !self@.data.contains_key(
                    #[trigger] self@.data_load_queue[i],
                ) by {
                    assert(self@.data_load_queue[i] == at_pop.data_load_queue[i + 1]);
                }
                assert(self@.data_load_queue.no_duplicates());
            }
            let ghost data_before = self@.data;
            self.build_chunk_data(chunk_pos, is_solid_at);
            proof {
                assert(queue.take(done + 1) =~= queue.take(done as int) + seq![chunk_pos]);
                assert forall|p: ChunkPosition|
                    #[trigger] self@.data.contains_key(p) <==> before.data.contains_key(p)
                        || queue.take(done + 1).contains(p) by {
                    lemma_contains_in_concat(queue.take(done as int), seq![chunk_pos], p);
                    assert(seq![chunk_pos][0] == chunk_pos);
                }
                assert(!before.data.contains_key(chunk_pos));
                assert forall|i: int| 0 <= i < done + 1 implies generated_in(
                    self@.data,
                    #[trigger] queue[i],
                    is_solid_at,
                ) by {
                    if i < done {
                        assert(queue[i] != chunk_pos);
                        assert(queue.take(done as int)[i] == queue[i]);
                        assert(data_before.contains_key(queue[i]));
                        assert(self@.data[queue[i]] == data_before[queue[i]]);
                    } else {
                        assert(queue[i] == chunk_pos);
                    }
                }
            }
            done += 1;
        }
        proof {
            assert(done == queue.len());
            assert(queue.take(done as int) =~= queue);
            assert(self@.data_load_queue =~= Seq::empty());
        }
    }

    /// Whether the chunk at `p` and the six chunks around it are resident.
    fn is_surrounded(&self, p: &ChunkPosition) -> (surrounded: bool)
        requires
            p.can_offset(-1, -1, -1),
            p.can_offset(1, 1, 1),
        ensures
            surrounded == self@.is_surrounded(*p),
    {
        let here = self.chunk_data_map.contains_key(&p.to_key());
        let left = ChunkPosition { x: p.x - 1, y: p.y, z: p.z };
        let right = ChunkPosition { x: p.x + 1, y: p.y, z: p.z };
        let down = ChunkPosition { x: p.x, y: p.y - 1, z: p.z };
        let up = ChunkPosition { x: p.x, y: p.y + 1, z: p.z };
        let back = ChunkPosition { x: p.x, y: p.y, z: p.z - 1 };
        let forward = ChunkPosition { x: p.x, y: p.y, z: p.z + 1 };
        proof {
            let around = p.neighbors();
            assert(around[0] == left && around[1] == right && around[2] == down && around[3] == up
                && around[4] == back && around[5] == forward);
        }
        let data = &self.chunk_data_map;
        here && data.contains_key(&left.to_key()) && data.contains_key(&right.to_key())
            && data.contains_key(&down.to_key()) && data.contains_key(&up.to_key())
            && data.contains_key(&back.to_key()) && data.contains_key(&forward.to_key())
    }

    /// Puts the position `p`, the next of the walk, to the test of the
    /// refresh, and queues it where it passes. Says whether the queue is
    /// full now.
    fn offer(
        &mut self,
        p: ChunkPosition,
        for_mesh: bool,
        Ghost(before): Ghost<ChunksView>,
        Ghost(seen): Ghost<Seq<ChunkPosition>>,
    ) -> (full: bool)
        requires
            old(self).wf(),
            before.wf(),
            old(self)@ == with_load_queue(
                before,
                for_mesh,
                load_queue_of(before, for_mesh) + seen.filter(test_of(before, for_mesh)),
            ),
            load_queue_of(old(self)@, for_mesh).len() < load_cap(for_mesh),
            !seen.contains(p),
            p.can_offset(-1, -1, -1),
            p.can_offset(1, 1, 1),
        ensures
            final(self).wf(),
            final(self)@ == with_load_queue(
                before,
                for_mesh,
                load_queue_of(before, for_mesh) + seen.push(p).filter(test_of(before, for_mesh)),
            ),
            load_queue_of(final(self)@, for_mesh).len() <= load_cap(for_mesh),
            full == (load_queue_of(final(self)@, for_mesh).len() >= load_cap(for_mesh)),
    {
        let ghost test = test_of(before, for_mesh);
        let ghost former = load_queue_of(before, for_mesh);
        proof {
            seen.lemma_filter_push(p, test);
            assert(!seen.filter(test).contains(p)) by {
                if seen.filter(test).contains(p) {
                    seen.lemma_filter_contains_rev(test, p);
                }
            }
            lemma_contains_in_concat(former, seen.filter(test), p);
        }
        if for_mesh {
            if !self.is_mesh_processing(&p) && self.in_range(p) && self.is_surrounded(&p) {
                assert(test(p));
                self.chunk_mesh_load_queue.push_back(p);
                proof {
                    lemma_push_no_duplicates(former + seen.filter(test), p);
                    assert(self@.mesh_load_queue =~= former + seen.push(p).filter(test));
                }
            } else {
                assert(!test(p));
            }
            self.chunk_mesh_load_queue.len() >= MAX_MESH_QUEUE
        } else {
            if !self.is_chunk_processing(&p) && self.in_range(p) {
                assert(test(p));
                self.chunk_data_load_queue.push_back(p);
                proof {
                    lemma_push_no_duplicates(former + seen.filter(test), p);
                    assert(self@.data_load_queue =~= former + seen.push(p).filter(test));
                }
            } else {
                assert(!test(p));
            }
            self.chunk_data_load_queue.len() >= MAX_DATA_QUEUE
        }
    }

    /// Walks the cube around the observer, layer by layer and row by row,
    /// and queues what passes the test, until the queue is full. The walk
    /// ends with the position that fills the queue.
    fn refresh_load_queue(&mut self, for_mesh: bool)
        requires
            old(self).wf(),
        ensures
            final(self).wf(),
            final(self)@ == with_load_queue(
                old(self)@,
                for_mesh,
                refreshed_of(old(self)@, for_mesh),
            ),
    {
        let ghost before = self@;
        let ghost former = load_queue_of(before, for_mesh);
        let ghost test = test_of(before, for_mesh);
        let center = self.position.current_chunk();
        let r = self.render_distance;
        proof {
            lemma_positions_len(self.chunk_data_map@);
            lemma_positions_len(self.chunk_mesh_map@);
            lemma_walked_grows(center, r as int, 0, 0, 0);
            reveal(Seq::filter);
            assert(Seq::<ChunkPosition>::empty().filter(test) =~= Seq::empty());
            assert(former + Seq::<ChunkPosition>::empty() =~= former);
        }
        let at_its_fill = if for_mesh {
            self.chunk_mesh_map.len() >= DEFAULT_MAX_MESH_DATAS || self.chunk_mesh_load_queue.len()
                >= MAX_MESH_QUEUE
        } else {
            self.chunk_data_map.len() >= DEFAULT_MAX_CHUNK_DATAS
                || self.chunk_data_load_queue.len() >= MAX_DATA_QUEUE
        };
        if at_its_fill {
            return;
        }
        let mut y: i32 = -r;
        while y <= r
            invariant
                self.wf(),
                before.wf(),
                before == old(self)@,
                !is_at_its_fill(before, for_mesh),
                former == load_queue_of(before, for_mesh),
                test == test_of(before, for_mesh),
                center == before.position.chunk(),
                r == before.render_distance,
                walkable(center, r as int),
                -r <= y <= r + 1,
                load_queue_of(self@, for_mesh).len() < load_cap(for_mesh),
                self@ == with_load_queue(
                    before,
                    for_mesh,
                    former + walked(center, r as int, (y + r) as nat, 0, 0).filter(test),
                ),
            decreases r + 1 - y,
        {
            let mut z: i32 = -r;
            while z <= r
                invariant
                    self.wf(),
                    before.wf(),
                    before == old(self)@,
                    !is_at_its_fill(before, for_mesh),
                    former == load_queue_of(before, for_mesh),
                    test == test_of(before, for_mesh),
                    center == before.position.chunk(),
                    r == before.render_distance,
                    walkable(center, r as int),
                    -r <= y <= r,
                    -r <= z <= r + 1,
                    load_queue_of(self@, for_mesh).len() < load_cap(for_mesh),
                    self@ == with_load_queue(
                        before,
                        for_mesh,
                        former + walked(center, r as int, (y + r) as nat, (z + r) as nat, 0).filter(
                            test,
                        ),
                    ),
                decreases r + 1 - z,
            {
                let mut x: i32 = -r;
                while x <= r
                    invariant
                        self.wf(),
                        before.wf(),
                        before == old(self)@,
                        !is_at_its_fill(before, for_mesh),
                        former == load_queue_of(before, for_mesh),
                        test == test_of(before, for_mesh),
                        center == before.position.chunk(),
                        r == before.render_distance,
                        walkable(center, r as int),
                        -r <= y <= r,
                        -r <= z <= r,
                        -r <= x <= r + 1,
                        load_queue_of(self@, for_mesh).len() < load_cap(for_mesh),
                        self@ == with_load_queue(
                            before,
                            for_mesh,
                            former + walked(
                                center,
                                r as int,
                                (y + r) as nat,
                                (z + r) as nat,
                                (x + r) as nat,
                            ).filter(test),
                        ),
                    decreases r + 1 - x,
                {
                    let chunk_pos = ChunkPosition {
                        x: center.x + x,
                        y: center.y + y,
                        z: center.z + z,
                    };
                    let ghost seen = walked(
                        center,
                        r as int,
                        (y + r) as nat,
                        (z + r) as nat,
                        (x + r) as nat,
                    );
                    let ghost rest = Seq::<ChunkPosition>::empty();
                    proof {
                        rest = lemma_walk_rest(
                            center,
                            r as int,
                            (y + r) as nat,
                            (z + r) as nat,
                            (x + r) as nat,
                        );
                        lemma_walked_grows(
                            center,
                            r as int,
                            (y + r) as nat,
                            (z + r) as nat,
                            (x + r) as nat,
                        );
                        lemma_neighborhood(center, r as int);
                        assert(chunk_pos == center.offset(x as int, y as int, z as int));
                        assert(!seen.contains(chunk_pos)) by {
                            let walk = neighborhood(center, r as int);
                            if seen.contains(chunk_pos) {
                                let j = choose|j: int| 0 <= j < seen.len() && seen[j] == chunk_pos;
                                assert(walk[j] == seen[j]);
                                assert(walk[seen.len() as int] == rest[0]);
                            }
                        }
                    }
                    let full = self.offer(chunk_pos, for_mesh, Ghost(before), Ghost(seen));
                    x += 1;
                    if full {
                        proof {
                            assert(neighborhood(center, r as int) =~= seen.push(chunk_pos)
                                + rest.skip(1));
                            lemma_refresh_ends(
                                former,
                                neighborhood(center, r as int),
                                before.wants(for_mesh),
                                load_cap(for_mesh),
                                seen.push(chunk_pos),
                                rest.skip(1),
                            );
                        }
                        return;
                    }
                }
                proof {
                    lemma_walked_grows(center, r as int, (y + r) as nat, (z + r) as nat, 0);
                }
                z += 1;
            }
            proof {
                lemma_walked_grows(center, r as int, (y + r) as nat, 0, 0);
            }
            y += 1;
        }
        proof {
            lemma_walked_grows(center, r as int, 0, 0, 0);
            let walk = neighborhood(center, r as int);
            assert(walk + Seq::<ChunkPosition>::empty() =~= walk);
            lemma_refresh_ends(
                former,
                walk,
                before.wants(for_mesh),
                load_cap(for_mesh),
                walk,
                Seq::empty(),
            );
        }
    }

    /// Queues the positions around the observer that are in range and
    /// neither resident nor queued, in walk order, until the queue is full.
    /// Nothing is queued while the manager holds its fill of chunks.
    pub fn update_load_data_queue(&mut self)
        requires
            old(self).wf(),
        ensures
            final(self).wf(),
            final(self)@ == (ChunksView {
                data_load_queue: old(self)@.refreshed_data_load_queue(),
                ..old(self)@
            }),
            final(self)@.data_load_queue.len() <= MAX_DATA_QUEUE,
            final(self)@.data_load_queue.no_duplicates(),
            final(self)@.data_load_queue.take(old(self)@.data_load_queue.len() as int)
                == old(self)@.data_load_queue,
            forall|i: int|
                old(self)@.data_load_queue.len() <= i < final(self)@.data_load_queue.len() ==> {
                    let p = #[trigger] final(self)@.data_load_queue[i];
                    &&& !old(self)@.data.contains_key(p)
                    &&& !old(self)@.data_load_queue.contains(p)
                    &&& within_range(old(self)@.position, old(self)@.render_distance, p)
                    &&& old(self)@.walk().contains(p)
                },
            final(self)@.data_load_queue.len() < MAX_DATA_QUEUE && old(self)@.data.dom().len()
                < DEFAULT_MAX_CHUNK_DATAS ==> forall|p: ChunkPosition|
                #[trigger] within_range(old(self)@.position, old(self)@.render_distance, p)
                    && in_box(old(self)@.position.chunk(), old(self)@.render_distance, p)
                    ==> old(self)@.data.contains_key(p) || final(self)@.data_load_queue.contains(
                    p,
                ),
    {
        let ghost before = self@;
        proof {
            lemma_positions_len(self.chunk_data_map@);
            lemma_neighborhood(before.position.chunk(), before.render_distance);
            lemma_refreshed(
                before.data_load_queue,
                before.walk(),
                before.wants_data(),
                MAX_DATA_QUEUE as nat,
            );
        }
        self.refresh_load_queue(false);
        proof {
            assert forall|p: ChunkPosition|
                #[trigger] within_range(before.position, before.render_distance, p) && in_box(
                    before.position.chunk(),
                    before.render_distance,
                    p,
                ) && !before.data.contains_key(p) implies before.walk().contains(p)
                && before.wants_data()(p) by {
                lemma_neighborhood_is_whole(before.position.chunk(), before.render_distance, p);
            }
        }
    }

    /// Queues the positions around the observer that are in range, have no
    /// mesh and wait for none, and are resident together with their six
    /// neighbours, in walk order, until the queue is full. Nothing is queued
    /// while the manager holds its fill of meshes.
    pub fn update_load_mesh_queue(&mut self)
        requires
            old(self).wf(),
        ensures
            final(self).wf(),
            final(self)@ == (ChunksView {
                mesh_load_queue: old(self)@.refreshed_mesh_load_queue(),
                ..old(self)@
            }),
            final(self)@.mesh_load_queue.len() <= MAX_MESH_QUEUE,
            final(self)@.mesh_load_queue.no_duplicates(),
            final(self)@.mesh_load_queue.take(old(self)@.mesh_load_queue.len() as int)
                == old(self)@.mesh_load_queue,
            forall|i: int|
                old(self)@.mesh_load_queue.len() <= i < final(self)@.mesh_load_queue.len() ==> {
                    let p = #[trigger] final(self)@.mesh_load_queue[i];
                    &&& !old(self)@.meshes.contains_key(p)
                    &&& !old(self)@.mesh_load_queue.contains(p)
                    &&& within_range(old(self)@.position, old(self)@.render_distance, p)
                    &&& old(self)@.is_surrounded(p)
                    &&& old(self)@.walk().contains(p)
                },
            final(self)@.mesh_load_queue.len() < MAX_MESH_QUEUE && old(self)@.meshes.dom().len()
                < DEFAULT_MAX_MESH_DATAS ==> forall|p: ChunkPosition|
                #[trigger] within_range(old(self)@.position, old(self)@.render_distance, p)
                    && in_box(old(self)@.position.chunk(), old(self)@.render_distance, p)
                    && old(self)@.is_surrounded(p) ==> old(self)@.meshes.contains_key(p)
                    || final(self)@.mesh_load_queue.contains(p),
    {
        let ghost before = self@;
        proof {
            lemma_positions_len(self.chunk_mesh_map@);
            lemma_neighborhood(before.position.chunk(), before.render_distance);
            lemma_refreshed(
                before.mesh_load_queue,
                before.walk(),
                before.wants_mesh(),
                MAX_MESH_QUEUE as nat,
            );
        }
        self.refresh_load_queue(true);
        proof {
            assert forall|p: ChunkPosition|
                #[trigger] within_range(before.position, before.render_distance, p) && in_box(
                    before.position.chunk(),
                    before.render_distance,
                    p,
                ) && before.is_surrounded(p) && !before.meshes.contains_key(
                    p,
                ) implies before.walk().contains(p) && before.wants_mesh()(p) by {
                lemma_neighborhood_is_whole(before.position.chunk(), before.render_distance, p);
            }
        }
    }
}

/// The load queue that a refresh works on: that of the meshes, or that of
/// the chunks.
spec fn load_queue_of(view: ChunksView, for_mesh: bool) -> Seq<ChunkPosition> {
    if for_mesh {
        view.mesh_load_queue
    } else {
        view.data_load_queue
    }
}

/// The view with the load queue that a refresh works on replaced.
spec fn with_load_queue(view: ChunksView, for_mesh: bool, queue: Seq<ChunkPosition>) -> ChunksView {
    if for_mesh {
        ChunksView { mesh_load_queue: queue, ..view }
    } else {
        ChunksView { data_load_queue: queue, ..view }
    }
}

/// The cap of the load queue that a refresh works on.
spec fn load_cap(for_mesh: bool) -> nat {
    if for_mesh {
        MAX_MESH_QUEUE as nat
    } else {
        MAX_DATA_QUEUE as nat
    }
}

/// Whether a refresh has nothing to do: the manager holds its fill of what
/// the refresh schedules, or the queue is full.
spec fn is_at_its_fill(view: ChunksView, for_mesh: bool) -> bool {
    if for_mesh {
        view.meshes.dom().len() >= DEFAULT_MAX_MESH_DATAS || view.mesh_load_queue.len()
            >= MAX_MESH_QUEUE
    } else {
        view.data.dom().len() >= DEFAULT_MAX_CHUNK_DATAS || view.data_load_queue.len()
            >= MAX_DATA_QUEUE
    }
}

/// The test that a refresh puts to each position of the walk.
spec fn test_of(view: ChunksView, for_mesh: bool) -> spec_fn(ChunkPosition) -> bool {
    wanted_and_new(load_queue_of(view, for_mesh), view.wants(for_mesh))
}

/// The queue that a refresh leaves.
spec fn refreshed_of(view: ChunksView, for_mesh: bool) -> Seq<ChunkPosition> {
    if for_mesh {
        view.refreshed_mesh_load_queue()
    } else {
        view.refreshed_data_load_queue()
    }
}

} // verus!
