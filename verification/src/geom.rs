//! Geometry primitives: world positions, chunk column addresses, and the
//! packed within-chunk block address.
//!
//! Chunk addressing uses floored division, so negative world coordinates
//! map to mathematically floored (not truncated) chunk keys.  The packed
//! local index layout `x | z << 4 | y << 8` is the authoritative storage
//! index inside a chunk.

use vstd::arithmetic::div_mod::{lemma_fundamental_div_mod, lemma_mod_bound};
use vstd::prelude::*;

verus! {

/// A block position in world coordinates; y grows upward.
#[derive(Clone, Copy, PartialEq, Eq, Hash, Debug, Structural)]
pub struct BlockPosition {
    pub x: i32,
    pub y: i32,
    pub z: i32,
}

impl BlockPosition {
    pub fn new(x: i32, y: i32, z: i32) -> (r: BlockPosition)
        ensures
            r == (BlockPosition { x, y, z }),
    {
        BlockPosition { x, y, z }
    }
}

/// A chunk column key: the world x and z coordinates floor-divided by 16.
#[derive(Clone, Copy, PartialEq, Eq, Hash, Debug, Structural)]
pub struct ChunkAddr {
    pub x: i32,
    pub z: i32,
}

impl ChunkAddr {
    pub fn new(x: i32, z: i32) -> (r: ChunkAddr)
        ensures
            r == (ChunkAddr { x, z }),
    {
        ChunkAddr { x, z }
    }
}

/// A block's offset inside a chunk column: x, z in [0, 16), y in [0, 256).
#[derive(Clone, Copy, PartialEq, Eq, Hash, Debug, Structural)]
pub struct LocalAddr {
    pub x: u8,
    pub y: u8,
    pub z: u8,
}

impl LocalAddr {
    /// The x and z offsets fit inside one chunk column.
    pub open spec fn valid(self) -> bool {
        self.x < 16 && self.z < 16
    }

    pub fn new(x: u8, y: u8, z: u8) -> (r: LocalAddr)
        ensures
            r == (LocalAddr { x, y, z }),
    {
        LocalAddr { x, y, z }
    }
}

/// Bounds under which `to_global_coords` cannot overflow: the chunk
/// coordinate times 16 plus a local offset stays inside `i32`.
pub open spec fn chunk_coord_in_range(c: int) -> bool {
    -0x800_0000 <= c < 0x800_0000
}

proof fn lemma_shr4_characterizes(a: i32)
    by (bit_vector)
    ensures
        16 * (a >> 4) <= a < 16 * (a >> 4) + 16,
        a & 15 == a - 16 * (a >> 4),
        -0x800_0000 <= (a >> 4) < 0x800_0000,
{
}

/// Floored division of a world coordinate by 16.  In specifications,
/// `/` on `int` is Euclidean division, which coincides with flooring
/// for the positive divisor 16.
pub fn floor_div_16(a: i32) -> (r: i32)
    ensures
        r == a as int / 16,
        chunk_coord_in_range(r as int),
{
    proof {
        lemma_shr4_characterizes(a);
        lemma_fundamental_div_mod(a as int, 16);
        lemma_mod_bound(a as int, 16);
    }
    a >> 4
}

/// The remainder matching `floor_div_16`: always in [0, 16).
pub fn floor_mod_16(a: i32) -> (r: i32)
    ensures
        r == a as int % 16,
        0 <= r < 16,
{
    proof {
        lemma_shr4_characterizes(a);
        lemma_fundamental_div_mod(a as int, 16);
        lemma_mod_bound(a as int, 16);
    }
    a & 15
}

/// The chunk column holding a world position.
pub fn chunk_addr(addr: BlockPosition) -> (r: ChunkAddr)
    ensures
        r.x == addr.x as int / 16,
        r.z == addr.z as int / 16,
        chunk_coord_in_range(r.x as int),
        chunk_coord_in_range(r.z as int),
{
    ChunkAddr { x: floor_div_16(addr.x), z: floor_div_16(addr.z) }
}

/// The within-chunk offset of a world position.
pub fn local_addr(addr: BlockPosition) -> (r: LocalAddr)
    requires
        0 <= addr.y < 256,
    ensures
        r.x == addr.x as int % 16,
        r.y == addr.y,
        r.z == addr.z as int % 16,
        r.valid(),
{
    LocalAddr {
        x: floor_mod_16(addr.x) as u8,
        y: addr.y as u8,
        z: floor_mod_16(addr.z) as u8,
    }
}

/// The world position of a local offset inside a chunk column.
pub fn to_global_coords(chunk: ChunkAddr, local: LocalAddr) -> (r: BlockPosition)
    requires
        chunk_coord_in_range(chunk.x as int),
        chunk_coord_in_range(chunk.z as int),
        local.valid(),
    ensures
        r.x == 16 * chunk.x + local.x,
        r.y == local.y,
        r.z == 16 * chunk.z + local.z,
{
    BlockPosition {
        x: chunk.x * 16 + local.x as i32,
        y: local.y as i32,
        z: chunk.z * 16 + local.z as i32,
    }
}

/// Chunk and local addressing invert `to_global_coords`: a block placed
/// by chunk key and local offset is found again at the same key and
/// offset.
pub proof fn lemma_global_coords_round_trip(chunk: ChunkAddr, local: LocalAddr)
    requires
        chunk_coord_in_range(chunk.x as int),
        chunk_coord_in_range(chunk.z as int),
        local.valid(),
    ensures
        (16 * chunk.x + local.x) / 16 == chunk.x,
        (16 * chunk.x + local.x) % 16 == local.x,
        (16 * chunk.z + local.z) / 16 == chunk.z,
        (16 * chunk.z + local.z) % 16 == local.z,
{
    lemma_div_mod_of_16q_plus_r(chunk.x as int, local.x as int);
    lemma_div_mod_of_16q_plus_r(chunk.z as int, local.z as int);
}

proof fn lemma_div_mod_of_16q_plus_r(q: int, r: int)
    requires
        0 <= r < 16,
    ensures
        (16 * q + r) / 16 == q,
        (16 * q + r) % 16 == r,
{
    let a = 16 * q + r;
    lemma_fundamental_div_mod(a, 16);
    lemma_mod_bound(a, 16);
}

/// Unpack a 16-bit local index laid out as `x | z << 4 | y << 8`.
pub fn from_local_index(idx: u16) -> (r: LocalAddr)
    ensures
        r.x == idx as int % 16,
        r.z == (idx as int / 16) % 16,
        r.y == idx as int / 256,
        r.valid(),
{
    proof {
        lemma_local_index_bits(idx);
    }
    LocalAddr { x: (idx & 0x0F) as u8, y: ((idx >> 8) & 0xFF) as u8, z: ((idx >> 4) & 0x0F) as u8 }
}

proof fn lemma_local_index_bits(idx: u16)
    by (bit_vector)
    ensures
        (idx & 0x0F) == idx % 16,
        ((idx >> 4) & 0x0F) == (idx / 16) % 16,
        ((idx >> 8) & 0xFF) == idx / 256,
{
}

/// Pack a local address into its 16-bit storage index.
pub fn to_local_index(addr: LocalAddr) -> (r: u16)
    requires
        addr.valid(),
    ensures
        r == addr.x + 16 * addr.z + 256 * addr.y,
        r as int == spec_local_index(addr),
{
    proof {
        lemma_local_pack(addr.x, addr.y, addr.z);
    }
    (addr.x as u16) | ((addr.y as u16) << 8) | ((addr.z as u16) << 4)
}

proof fn lemma_local_pack(x: u8, y: u8, z: u8)
    by (bit_vector)
    requires
        x < 16,
        z < 16,
    ensures
        ((x as u16) | ((y as u16) << 8) | ((z as u16) << 4)) == x + 16 * z + 256 * y,
{
}

/// The packed index of a local address, as plain arithmetic.
pub open spec fn spec_local_index(addr: LocalAddr) -> int {
    addr.x + 16 * addr.z + 256 * addr.y
}

/// Packing a local address and unpacking the index are mutually inverse.
pub proof fn lemma_local_index_round_trip(addr: LocalAddr, idx: u16)
    requires
        addr.valid(),
    ensures
        spec_local_index(addr) % 16 == addr.x,
        (spec_local_index(addr) / 16) % 16 == addr.z,
        spec_local_index(addr) / 256 == addr.y,
        idx as int % 16 + 16 * ((idx as int / 16) % 16) + 256 * (idx as int / 256) == idx,
{
    lemma_local_index_arith(addr.x, addr.y, addr.z);
    lemma_local_index_split(idx);
}

proof fn lemma_local_index_arith(x: u8, y: u8, z: u8)
    by (bit_vector)
    requires
        x < 16,
        z < 16,
    ensures
        (x + 16 * z + 256 * y) % 16 == x,
        ((x + 16 * z + 256 * y) / 16) % 16 == z,
        (x + 16 * z + 256 * y) / 256 == y,
{
}

proof fn lemma_local_index_split(idx: u16)
    by (bit_vector)
    ensures
        idx % 16 + 16 * ((idx / 16) % 16) + 256 * (idx / 256) == idx,
{
}

/// Absolute difference of two coordinates, widened so it cannot overflow.
pub open spec fn spec_abs_diff(a: int, b: int) -> int {
    if a >= b {
        a - b
    } else {
        b - a
    }
}

/// The Manhattan length of the difference of two positions.
pub open spec fn spec_manhattan(a: BlockPosition, b: BlockPosition) -> int {
    spec_abs_diff(a.x as int, b.x as int) + spec_abs_diff(a.y as int, b.y as int) + spec_abs_diff(
        a.z as int,
        b.z as int,
    )
}

/// The Manhattan distance between two block positions.
pub fn manhattan_distance(a: BlockPosition, b: BlockPosition) -> (r: i64)
    ensures
        r == spec_manhattan(a, b),
{
    let dx: i64 = abs_diff_i32(a.x, b.x);
    let dy: i64 = abs_diff_i32(a.y, b.y);
    let dz: i64 = abs_diff_i32(a.z, b.z);
    dx + dy + dz
}

fn abs_diff_i32(a: i32, b: i32) -> (r: i64)
    ensures
        r == spec_abs_diff(a as int, b as int),
        0 <= r,
{
    let wa: i64 = a as i64;
    let wb: i64 = b as i64;
    if wa >= wb {
        wa - wb
    } else {
        wb - wa
    }
}

} // verus!
