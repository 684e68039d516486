//! Pools that recycle chunks and chunk meshes, so that streaming does not
//! allocate and free them over and over.
//!
//! A pool keeps the values that are free for reuse. Taking one out hands back
//! a free value, or a new one when none is free; giving one back resets it and
//! keeps it for the next taker.

use crate::voxel_tools::chunk::Chunk;
use crate::voxel_tools::chunk::ChunkMesh;
use vstd::prelude::*;

verus! {

/// A `lifeguard::Pool` of chunks.
#[verifier::external_body]
pub struct ChunkPool {
    inner: lifeguard::Pool<Chunk>,
}

/// A `lifeguard::Pool` of chunk meshes.
#[verifier::external_body]
pub struct ChunkMeshPool {
    inner: lifeguard::Pool<ChunkMesh>,
}

/// How many chunks the pool holds free for reuse.
pub uninterp spec fn chunk_pool_free(pool: ChunkPool) -> nat;

/// How many meshes the pool holds free for reuse.
pub uninterp spec fn mesh_pool_free(pool: ChunkMeshPool) -> nat;

/// The free count after one value was taken out.
pub open spec fn after_take(free: nat) -> nat {
    if free > 0 {
        (free - 1) as nat
    } else {
        0
    }
}

/// The free count after one value was given back. A pool made without a
/// maximum size is full only at `usize::MAX` values, and drops what is given
/// back to it then.
pub open spec fn after_give(free: nat) -> nat {
    if free < usize::MAX {
        free + 1
    } else {
        free
    }
}

/// `lifeguard::pool().with(StartingSize(n)).build()`: a pool without a
/// maximum size that starts with `n` free chunks.
#[verifier::external_body]
fn chunk_pool_build(starting_size: usize) -> (pool: ChunkPool)
    ensures
        chunk_pool_free(pool) == starting_size,
{
    ChunkPool { inner: lifeguard::pool().with(lifeguard::StartingSize(starting_size)).build() }
}

/// `Pool::detached`: takes a free chunk out of the pool, or makes a new one
/// where the pool holds none.
#[verifier::external_body]
fn chunk_pool_detached(pool: &mut ChunkPool) -> (chunk: Chunk)
    ensures
        chunk_pool_free(*final(pool)) == after_take(chunk_pool_free(*old(pool))),
{
    pool.inner.detached()
}

/// `Pool::attach`, with the guard it returns dropped at once: the chunk is
/// reset and kept as a free one, unless the pool is full.
#[verifier::external_body]
fn chunk_pool_attach(pool: &mut ChunkPool, chunk: Chunk)
    ensures
        chunk_pool_free(*final(pool)) == after_give(chunk_pool_free(*old(pool))),
{
    pool.inner.attach(chunk);
}

/// `Pool::size`: the number of free chunks.
#[verifier::external_body]
fn chunk_pool_size(pool: &ChunkPool) -> (n: usize)
    ensures
        n == chunk_pool_free(*pool),
{
    pool.inner.size()
}

/// `lifeguard::pool().with(StartingSize(n)).build()`: a pool without a
/// maximum size that starts with `n` free meshes.
#[verifier::external_body]
fn mesh_pool_build(starting_size: usize) -> (pool: ChunkMeshPool)
    ensures
        mesh_pool_free(pool) == starting_size,
{
    ChunkMeshPool { inner: lifeguard::pool().with(lifeguard::StartingSize(starting_size)).build() }
}

/// `Pool::detached`: takes a free mesh out of the pool, or makes a new one
/// where the pool holds none.
#[verifier::external_body]
fn mesh_pool_detached(pool: &mut ChunkMeshPool) -> (mesh: ChunkMesh)
    ensures
        mesh_pool_free(*final(pool)) == after_take(mesh_pool_free(*old(pool))),
{
    pool.inner.detached()
}

/// `Pool::attach`, with the guard it returns dropped at once: the mesh is
/// reset and kept as a free one, unless the pool is full.
#[verifier::external_body]
fn mesh_pool_attach(pool: &mut ChunkMeshPool, mesh: ChunkMesh)
    ensures
        mesh_pool_free(*final(pool)) == after_give(mesh_pool_free(*old(pool))),
{
    pool.inner.attach(mesh);
}

/// `Pool::size`: the number of free meshes.
#[verifier::external_body]
fn mesh_pool_size(pool: &ChunkMeshPool) -> (n: usize)
    ensures
        n == mesh_pool_free(*pool),
{
    pool.inner.size()
}

impl ChunkPool {
    /// The number of chunks free for reuse.
    pub open spec fn free(&self) -> nat {
        chunk_pool_free(*self)
    }

    /// A pool that starts with `starting_size` free chunks.
    pub fn with_starting_size(starting_size: usize) -> (pool: Self)
        ensures
            pool.free() == starting_size,
    {
        chunk_pool_build(starting_size)
    }

    /// Takes a chunk out of the pool and empties it, so that nothing a
    /// former user left in it is ever seen.
    pub fn checkout(&mut self) -> (chunk: Chunk)
        ensures
            chunk.is_blank(),
            final(self).free() == after_take(old(self).free()),
    {
        let mut chunk = chunk_pool_detached(self);
        chunk.clear();
        chunk
    }

    /// Gives a chunk back for reuse.
    pub fn return_to_pool(&mut self, chunk: Chunk)
        ensures
            final(self).free() == after_give(old(self).free()),
    {
        chunk_pool_attach(self, chunk);
    }

    pub fn size(&self) -> (n: usize)
        ensures
            n == self.free(),
    {
        chunk_pool_size(self)
    }
}

impl ChunkMeshPool {
    /// The number of meshes free for reuse.
    pub open spec fn free(&self) -> nat {
        mesh_pool_free(*self)
    }

    /// A pool that starts with `starting_size` free meshes.
    pub fn with_starting_size(starting_size: usize) -> (pool: Self)
        ensures
            pool.free() == starting_size,
    {
        mesh_pool_build(starting_size)
    }

    /// Takes a mesh out of the pool and clears it, so that no handle or count
    /// of a former user is ever seen.
    pub fn checkout(&mut self) -> (mesh: ChunkMesh)
        ensures
            mesh.is_blank(),
            final(self).free() == after_take(old(self).free()),
    {
        let mut mesh = mesh_pool_detached(self);
        mesh.clear();
        mesh
    }

    /// Gives a mesh back for reuse.
    pub fn return_to_pool(&mut self, mesh: ChunkMesh)
        ensures
            final(self).free() == after_give(old(self).free()),
    {
        mesh_pool_attach(self, mesh);
    }

    pub fn size(&self) -> (n: usize)
        ensures
            n == self.free(),
    {
        mesh_pool_size(self)
    }
}

} // verus!
