//! Hash maps keyed by chunk position.
//!
//! The maps store each position under its key, a single number, and are read
//! through `positions_of`, which turns such a map back into one from
//! positions.

use crate::voxel_tools::position::key_limit;
use crate::voxel_tools::position::lemma_key_roundtrip;
use crate::voxel_tools::position::lemma_of_key_roundtrip;
use crate::voxel_tools::position::ChunkPosition;
use std::collections::HashMap;
use vstd::prelude::*;
use vstd::std_specs::iter::IteratorSpec;

verus! {

broadcast use vstd::std_specs::hash::group_hash_axioms;

/// The map from positions that a map from keys stands for.
pub open spec fn positions_of<V>(raw: Map<u128, V>) -> Map<ChunkPosition, V> {
    Map::new(|p: ChunkPosition| raw.contains_key(p.key()), |p: ChunkPosition| raw[p.key()])
}

/// Whether every key of the map is the key of a position.
pub open spec fn keys_valid<V>(raw: Map<u128, V>) -> bool {
    forall|k: u128| raw.contains_key(k) ==> k < key_limit()
}

/// Storing under a position's key stores under the position.
pub(crate) proof fn lemma_positions_insert<V>(raw: Map<u128, V>, p: ChunkPosition, v: V)
    requires
        keys_valid(raw),
    ensures
        keys_valid(raw.insert(p.key(), v)),
        positions_of(raw.insert(p.key(), v)) == positions_of(raw).insert(p, v),
{
    lemma_key_roundtrip(p);
    assert forall|q: ChunkPosition| q.key() == p.key() implies q == p by {
        lemma_key_roundtrip(q);
    }
    assert(positions_of(raw.insert(p.key(), v)) =~= positions_of(raw).insert(p, v));
}

/// Removing a position's key removes the position.
pub(crate) proof fn lemma_positions_remove<V>(raw: Map<u128, V>, p: ChunkPosition)
    requires
        keys_valid(raw),
    ensures
        keys_valid(raw.remove(p.key())),
        positions_of(raw.remove(p.key())) == positions_of(raw).remove(p),
{
    lemma_key_roundtrip(p);
    assert forall|q: ChunkPosition| q.key() == p.key() implies q == p by {
        lemma_key_roundtrip(q);
    }
    assert(positions_of(raw.remove(p.key())) =~= positions_of(raw).remove(p));
}

/// A finite map from keys stands for a map from as many positions.
pub(crate) proof fn lemma_positions_len<V>(raw: Map<u128, V>)
    requires
        keys_valid(raw),
        raw.dom().finite(),
    ensures
        positions_of(raw).dom().finite(),
        positions_of(raw).dom().len() == raw.dom().len(),
{
    let of_key = |k: u128| ChunkPosition::of_key(k);
    let positions = positions_of(raw).dom();
    assert forall|a: u128, b: u128|
        raw.dom().contains(a) && raw.dom().contains(b) && #[trigger] of_key(a) == #[trigger] of_key(
            b,
        ) implies a == b by {
        lemma_of_key_roundtrip(a);
        lemma_of_key_roundtrip(b);
    }
    assert(vstd::relations::injective_on(of_key, raw.dom()));
    assert forall|p: ChunkPosition| positions.contains(p) <==> raw.dom().map(of_key).contains(
        p,
    ) by {
        if positions.contains(p) {
            lemma_key_roundtrip(p);
            assert(raw.dom().contains(p.key()) && of_key(p.key()) == p);
        }
        if raw.dom().map(of_key).contains(p) {
            let k = choose|k: u128| raw.dom().contains(k) && of_key(k) == p;
            lemma_of_key_roundtrip(k);
        }
    }
    assert(raw.dom().map(of_key) =~= positions);
    vstd::set_lib::lemma_map_size(raw.dom(), positions, of_key);
}

/// The empty map stands for the empty map.
pub(crate) proof fn lemma_positions_empty<V>()
    ensures
        keys_valid(Map::<u128, V>::empty()),
        positions_of(Map::<u128, V>::empty()) == Map::<ChunkPosition, V>::empty(),
{
    assert(positions_of(Map::<u128, V>::empty()) =~= Map::<ChunkPosition, V>::empty());
}

/// Lists the positions that a map holds, in the order in which the map hands
/// out its keys.
pub fn positions_in<V>(map: &HashMap<u128, V>) -> (positions: Vec<ChunkPosition>)
    requires
        keys_valid(map@),
    ensures
        positions@.no_duplicates(),
        forall|p: ChunkPosition|
            positions@.contains(p) <==> #[trigger] positions_of(map@).contains_key(p),
{
    let mut positions: Vec<ChunkPosition> = Vec::new();
    let ghost keys: Seq<u128> = map.keys().remaining().unref();
    proof {
        assert(keys.to_set() == map@.dom());
        assert(keys.no_duplicates()) by {
            assert forall|i: int, j: int|
                0 <= i < keys.len() && 0 <= j < keys.len() && i != j implies keys[i] != keys[j] by {
                assert(map.keys().remaining()[i] != map.keys().remaining()[j]);
            }
        }
    }
    for key in it: map.keys()
        invariant
            keys_valid(map@),
            it.seq() == map.keys().remaining(),
            keys == map.keys().remaining().unref(),
            keys.to_set() == map@.dom(),
            keys.no_duplicates(),
            positions@.len() == it.index(),
            forall|i: int|
                0 <= i < positions@.len() ==> (#[trigger] positions@[i]).key() == keys[i],
    {
        proof {
            assert(*key == keys[it.index()]);
            assert(keys.to_set().contains(keys[it.index()]));
        }
        positions.push(ChunkPosition::from_key(*key));
    }
    proof {
        assert forall|i: int, j: int|
            0 <= i < positions@.len() && 0 <= j < positions@.len() && i != j implies positions@[i]
            != positions@[j] by {
            assert(positions@[i].key() != positions@[j].key());
        }
        assert forall|p: ChunkPosition|
            positions@.contains(p) <==> #[trigger] positions_of(map@).contains_key(p) by {
            if positions@.contains(p) {
                let i = choose|i: int| 0 <= i < positions@.len() && positions@[i] == p;
                assert(keys.to_set().contains(keys[i]));
            }
            if positions_of(map@).contains_key(p) {
                assert(keys.to_set().contains(p.key()));
                let i = choose|i: int| 0 <= i < keys.len() && keys[i] == p.key();
                lemma_key_roundtrip(p);
                lemma_key_roundtrip(positions@[i]);
                assert(positions@[i] == p);
            }
        }
    }
    positions
}

} // verus!
