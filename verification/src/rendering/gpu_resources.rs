//! The arena that owns the buffers handed to the graphics device.
//!
//! A buffer lives in the arena from the moment it is inserted until it is
//! removed, and is reached through the handle that the insertion returned.

use generational_arena::Arena;
use generational_arena::Index;
use vstd::prelude::*;

verus! {

/// `generational_arena::Arena`, taken as a whole: what it holds is known
/// only through `arena_slots` and `arena_retired`.
#[verifier::external_type_specification]
#[verifier::external_body]
#[verifier::reject_recursive_types(T)]
pub struct ExArena<T>(Arena<T>);

/// `generational_arena::Index`, the handle of a slot: a value that can be
/// copied and compared, and nothing more.
#[verifier::external_type_specification]
#[verifier::external_body]
pub struct ExIndex(Index);

/// Stands for one buffer on the graphics device. The renderer creates the
/// device buffer, keeps it under `id`, and hands this value to the arena.
#[derive(Clone, Copy, Debug, PartialEq, Eq, Structural)]
pub struct GpuBuffer {
    pub id: u64,
}

/// What an arena holds: each live handle with the buffer stored under it.
pub uninterp spec fn arena_slots(arena: Arena<GpuBuffer>) -> Map<Index, GpuBuffer>;

/// The handles that an arena has given up for good. The arena counts its
/// removals and tags every handle it hands out with the count at that time;
/// a handle whose tag lies below the count and which is not live is spent,
/// and `insert` never hands it out.
pub uninterp spec fn arena_retired(arena: Arena<GpuBuffer>) -> Set<Index>;

/// An arena's contents while it holds nothing.
pub open spec fn no_slots() -> Map<Index, GpuBuffer> {
    Map::empty()
}

/// Whether every handle spent before is spent after.
pub open spec fn stays_retired(before: Set<Index>, after: Set<Index>) -> bool {
    forall|h: Index| before.contains(h) ==> #[trigger] after.contains(h)
}

/// `Arena::with_capacity`: a new arena holds nothing, and no handle of it
/// is spent.
#[verifier::external_body]
fn arena_with_capacity(n: usize) -> (made: Arena<GpuBuffer>)
    ensures
        arena_slots(made) == no_slots(),
        arena_retired(made) == Set::<Index>::empty(),
{
    Arena::with_capacity(n)
}

/// `Arena::insert`: stores the buffer under a handle that is neither live
/// nor spent, and leaves every other slot as it was.
#[verifier::external_body]
fn arena_insert(arena: &mut Arena<GpuBuffer>, buffer: GpuBuffer) -> (index: Index)
    ensures
        !arena_slots(*old(arena)).contains_key(index),
        !arena_retired(*old(arena)).contains(index),
        arena_slots(*final(arena)) == arena_slots(*old(arena)).insert(index, buffer),
        arena_retired(*final(arena)) == arena_retired(*old(arena)),
{
    arena.insert(buffer)
}

/// `Arena::remove`: takes out and returns the buffer under a live handle,
/// which is spent from then on as is every handle spent before, and does
/// nothing for any other handle. The arena counts its removals in a `u64`,
/// which no run can exhaust; the contract leaves that case aside.
#[verifier::external_body]
fn arena_remove(arena: &mut Arena<GpuBuffer>, index: Index) -> (removed: Option<GpuBuffer>)
    ensures
        removed == if arena_slots(*old(arena)).contains_key(index) {
            Some(arena_slots(*old(arena))[index])
        } else {
            None
        },
        arena_slots(*final(arena)) == arena_slots(*old(arena)).remove(index),
        stays_retired(arena_retired(*old(arena)), arena_retired(*final(arena))),
        arena_slots(*old(arena)).contains_key(index) ==> arena_retired(*final(arena)).contains(
            index,
        ),
        !arena_slots(*old(arena)).contains_key(index) ==> arena_retired(*final(arena))
            == arena_retired(*old(arena)),
{
    arena.remove(index)
}

/// `Arena::get`: the buffer under a live handle, and nothing for any other.
#[verifier::external_body]
fn arena_get(arena: &Arena<GpuBuffer>, index: Index) -> (found: Option<&GpuBuffer>)
    ensures
        found == if arena_slots(*arena).contains_key(index) {
            Some(&arena_slots(*arena)[index])
        } else {
            None
        },
{
    arena.get(index)
}

/// Owns every buffer that the chunk meshes refer to.
pub struct GpuResources {
    pub buffer_arena: Arena<GpuBuffer>,
}

impl GpuResources {
    /// The live handles, each with its buffer.
    pub open spec fn slots(&self) -> Map<Index, GpuBuffer> {
        arena_slots(self.buffer_arena)
    }

    /// The handles that are spent, none of which is handed out again.
    pub open spec fn retired(&self) -> Set<Index> {
        arena_retired(self.buffer_arena)
    }

    pub fn new() -> (resources: Self)
        ensures
            resources.slots() == no_slots(),
            resources.retired() == Set::<Index>::empty(),
    {
        Self { buffer_arena: arena_with_capacity(32) }
    }

    /// Stores a buffer and returns the handle it now lives under.
    pub fn insert(&mut self, buffer: GpuBuffer) -> (index: Index)
        ensures
            !old(self).slots().contains_key(index),
            !old(self).retired().contains(index),
            final(self).slots() == old(self).slots().insert(index, buffer),
            final(self).retired() == old(self).retired(),
    {
        arena_insert(&mut self.buffer_arena, buffer)
    }

    /// Takes the buffer under `index` out of the arena, if the handle is live.
    pub fn remove(&mut self, index: Index) -> (removed: Option<GpuBuffer>)
        ensures
            removed == if old(self).slots().contains_key(index) {
                Some(old(self).slots()[index])
            } else {
                None
            },
            final(self).slots() == old(self).slots().remove(index),
            stays_retired(old(self).retired(), final(self).retired()),
            old(self).slots().contains_key(index) ==> final(self).retired().contains(index),
            !old(self).slots().contains_key(index) ==> final(self).retired() == old(self).retired(),
    {
        arena_remove(&mut self.buffer_arena, index)
    }

    /// The buffer under `index`, if the handle is live.
    pub fn get(&self, index: Index) -> (found: Option<&GpuBuffer>)
        ensures
            found == if self.slots().contains_key(index) {
                Some(&self.slots()[index])
            } else {
                None
            },
    {
        arena_get(&self.buffer_arena, index)
    }

    /// Whether `index` is a live handle.
    pub fn contains(&self, index: Index) -> (live: bool)
        ensures
            live == self.slots().contains_key(index),
    {
        arena_get(&self.buffer_arena, index).is_some()
    }
}

} // verus!
