//! Positions on the three grids of the world: chunks, voxels, and the
//! observer.

use vstd::prelude::*;

verus! {

/// Voxels along each edge of a chunk.
pub const SIZE: usize = 16;

/// The base-2 logarithm of `SIZE`.
pub const BIT_SIZE: i32 = 4;

/// Voxels in a chunk.
pub const VOLUME: usize = 4096;

/// Identifies a chunk on the chunk grid. The chunk at position `p` covers the
/// voxels from `p * SIZE` up to, not including, `(p + 1) * SIZE` on each axis.
#[derive(Clone, Copy, Debug, PartialEq, Eq, Structural, Hash)]
pub struct ChunkPosition {
    pub x: i32,
    pub y: i32,
    pub z: i32,
}

/// A point of the voxel grid, in world coordinates.
#[derive(Clone, Copy, Debug, PartialEq, Eq, Structural)]
pub struct WorldPosition {
    pub x: i64,
    pub y: i64,
    pub z: i64,
}

/// Where the observer stands, in world coordinates rounded toward zero.
#[derive(Clone, Copy, Debug, PartialEq, Eq, Structural)]
pub struct ObserverPosition {
    pub x: i32,
    pub y: i32,
    pub z: i32,
}

/// One more than the largest key a chunk position maps to.
pub open spec fn key_limit() -> int {
    0x1_0000_0000_0000_0000_0000_0000
}

/// `a / b` rounded toward zero, for a positive `b`.
pub open spec fn toward_zero_div(a: int, b: int) -> int {
    if a >= 0 {
        a / b
    } else {
        -((-a) / b)
    }
}

/// What is left of `a` after `toward_zero_div(a, b)`; it has the sign of `a`.
pub open spec fn toward_zero_rem(a: int, b: int) -> int {
    if a >= 0 {
        a % b
    } else {
        -((-a) % b)
    }
}

impl ChunkPosition {
    /// The chunk position with the given coordinates, each of which must fit
    /// an `i32` for the result to mean anything.
    pub open spec fn at(x: int, y: int, z: int) -> ChunkPosition {
        ChunkPosition { x: x as i32, y: y as i32, z: z as i32 }
    }

    /// The position `dx`, `dy`, `dz` chunks away from this one.
    pub open spec fn offset(self, dx: int, dy: int, dz: int) -> ChunkPosition {
        ChunkPosition::at(self.x + dx, self.y + dy, self.z + dz)
    }

    /// Whether the position `dx`, `dy`, `dz` chunks away is still on the grid.
    pub open spec fn can_offset(self, dx: int, dy: int, dz: int) -> bool {
        &&& i32::MIN <= self.x + dx <= i32::MAX
        &&& i32::MIN <= self.y + dy <= i32::MAX
        &&& i32::MIN <= self.z + dz <= i32::MAX
    }

    /// The six positions that share a face with this one, in the order
    /// -x, +x, -y, +y, -z, +z.
    pub open spec fn neighbors(self) -> Seq<ChunkPosition> {
        seq![
            self.offset(-1, 0, 0),
            self.offset(1, 0, 0),
            self.offset(0, -1, 0),
            self.offset(0, 1, 0),
            self.offset(0, 0, -1),
            self.offset(0, 0, 1),
        ]
    }

    /// The number that stands for this position in a hash map: the three
    /// coordinates, each shifted to be non-negative, packed into 96 bits.
    pub open spec fn key(self) -> u128 {
        ((self.x + 0x8000_0000) * 0x1_0000_0000_0000_0000 + (self.y + 0x8000_0000) * 0x1_0000_0000
            + (self.z + 0x8000_0000)) as u128
    }

    /// The position that `k` stands for, where `k` is below `key_limit()`.
    pub open spec fn of_key(k: u128) -> ChunkPosition {
        ChunkPosition::at(
            (k as int) / 0x1_0000_0000_0000_0000 - 0x8000_0000,
            ((k as int) / 0x1_0000_0000) % 0x1_0000_0000 - 0x8000_0000,
            (k as int) % 0x1_0000_0000 - 0x8000_0000,
        )
    }

    /// The world position of the chunk's corner with the smallest coordinates.
    pub open spec fn world(self) -> WorldPosition {
        WorldPosition { x: (self.x * 16) as i64, y: (self.y * 16) as i64, z: (self.z * 16) as i64 }
    }

    pub fn new(x: i32, y: i32, z: i32) -> (p: ChunkPosition)
        ensures
            p == (ChunkPosition { x, y, z }),
    {
        ChunkPosition { x, y, z }
    }

    pub fn to_key(&self) -> (k: u128)
        ensures
            k == self.key(),
            k < key_limit(),
    {
        let a: u128 = (self.x as i64 + 0x8000_0000) as u128;
        let b: u128 = (self.y as i64 + 0x8000_0000) as u128;
        let c: u128 = (self.z as i64 + 0x8000_0000) as u128;
        a * 0x1_0000_0000_0000_0000 + b * 0x1_0000_0000 + c
    }

    pub fn from_key(k: u128) -> (p: ChunkPosition)
        requires
            k < key_limit(),
        ensures
            p == ChunkPosition::of_key(k),
            p.key() == k,
    {
        let a: u128 = k / 0x1_0000_0000_0000_0000;
        let b: u128 = (k / 0x1_0000_0000) % 0x1_0000_0000;
        let c: u128 = k % 0x1_0000_0000;
        ChunkPosition {
            x: (a as i64 - 0x8000_0000) as i32,
            y: (b as i64 - 0x8000_0000) as i32,
            z: (c as i64 - 0x8000_0000) as i32,
        }
    }

    /// The position `dx`, `dy`, `dz` chunks away, or `None` where that leaves
    /// the grid.
    pub fn checked_offset(&self, dx: i32, dy: i32, dz: i32) -> (r: Option<ChunkPosition>)
        ensures
            r == if self.can_offset(dx as int, dy as int, dz as int) {
                Some(self.offset(dx as int, dy as int, dz as int))
            } else {
                None
            },
    {
        let x: i64 = self.x as i64 + dx as i64;
        let y: i64 = self.y as i64 + dy as i64;
        let z: i64 = self.z as i64 + dz as i64;
        if x < i32::MIN as i64 || x > i32::MAX as i64 || y < i32::MIN as i64 || y > i32::MAX as i64
            || z < i32::MIN as i64 || z > i32::MAX as i64 {
            None
        } else {
            Some(ChunkPosition { x: x as i32, y: y as i32, z: z as i32 })
        }
    }
}

impl ObserverPosition {
    /// The chunk the observer stands in: each coordinate divided by `SIZE`
    /// and rounded toward zero.
    pub open spec fn chunk(self) -> ChunkPosition {
        ChunkPosition::at(
            toward_zero_div(self.x as int, 16),
            toward_zero_div(self.y as int, 16),
            toward_zero_div(self.z as int, 16),
        )
    }

    pub fn new(x: i32, y: i32, z: i32) -> (p: ObserverPosition)
        ensures
            p == (ObserverPosition { x, y, z }),
    {
        ObserverPosition { x, y, z }
    }

    pub fn current_chunk(&self) -> (c: ChunkPosition)
        ensures
            c == self.chunk(),
            -0x800_0000 <= c.x <= 0x800_0000,
            -0x800_0000 <= c.y <= 0x800_0000,
            -0x800_0000 <= c.z <= 0x800_0000,
    {
        ChunkPosition { x: self.x / 16, y: self.y / 16, z: self.z / 16 }
    }
}

/// `of_key` undoes `key`.
pub(crate) proof fn lemma_key_roundtrip(p: ChunkPosition)
    ensures
        p.key() < key_limit(),
        ChunkPosition::of_key(p.key()) == p,
{
    let a = p.x + 0x8000_0000;
    let b = p.y + 0x8000_0000;
    let c = p.z + 0x8000_0000;
    let k = a * 0x1_0000_0000_0000_0000 + b * 0x1_0000_0000 + c;
    assert(0 <= k < key_limit());
    assert(k / 0x1_0000_0000_0000_0000 == a);
    assert(k / 0x1_0000_0000 == a * 0x1_0000_0000 + b);
    assert((k / 0x1_0000_0000) % 0x1_0000_0000 == b);
    assert(k % 0x1_0000_0000 == c);
}

/// `key` undoes `of_key` on every number below the limit.
pub(crate) proof fn lemma_of_key_roundtrip(k: u128)
    requires
        k < key_limit(),
    ensures
        ChunkPosition::of_key(k).key() == k,
{
    let n = k as int;
    let m = n / 0x1_0000_0000;
    let hi = n / 0x1_0000_0000_0000_0000;
    let mid = m % 0x1_0000_0000;
    let lo = n % 0x1_0000_0000;
    assert(m / 0x1_0000_0000 == hi) by {
        vstd::arithmetic::div_mod::lemma_div_denominator(n, 0x1_0000_0000, 0x1_0000_0000);
    }
    assert(n == m * 0x1_0000_0000 + lo);
    assert(m == hi * 0x1_0000_0000 + mid);
    assert(0 <= hi < 0x1_0000_0000);
    assert(n == hi * 0x1_0000_0000_0000_0000 + mid * 0x1_0000_0000 + lo);
}

} // verus!
