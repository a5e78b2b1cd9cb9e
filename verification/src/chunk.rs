//! The chunk store's data: a 16×16 column of up to 16 stacked 16³
//! sections, four parallel per-block arrays keyed by the packed local
//! address, and the unpack of a bit-packed, palette-compressed section
//! payload.
//!
//! Each per-block array is grown on demand and left short while the
//! upper sections are unused; an out-of-range read yields the array's
//! default (block state 0, damage 0, light 0, skylight 15).

use crate::blocks::BlockState;
use crate::geom::{from_local_index, spec_local_index, to_local_index, LocalAddr};
use crate::packets::{spec_list_len, spec_parse_list, WireItem};
use crate::wire::{
    copy_range, read_u8, read_varint_u32, spec_parse_u8, spec_parse_u64, spec_parse_varint,
    DecodeError,
};
use vstd::prelude::*;

verus! {

/// Blocks in a chunk column: 16 × 16 × 256.
pub const BLOCKS_PER_CHUNK: usize = 65536;

/// One value per block of a chunk column, stored sparsely: the backing
/// vector is grown only as far as the highest address written, and
/// everything beyond it reads as the default.
pub struct PerBlock<T: Copy> {
    data: Vec<T>,
    default: T,
}

impl<T: Copy> PerBlock<T> {
    /// The value at packed index `idx`: stored if the backing vector
    /// reaches it, the default otherwise.
    pub closed spec fn spec_get(self, idx: int) -> T {
        if 0 <= idx < self.data@.len() {
            self.data@[idx]
        } else {
            self.default
        }
    }

    pub closed spec fn spec_default(self) -> T {
        self.default
    }

    pub fn new(default: T) -> (r: PerBlock<T>)
        ensures
            forall|idx: int| r.spec_get(idx) == default,
            r.spec_default() == default,
    {
        PerBlock { data: Vec::new(), default }
    }

    pub fn get(&self, addr: LocalAddr) -> (r: T)
        requires
            addr.valid(),
        ensures
            r == self.spec_get(spec_local_index(addr)),
    {
        let idx = to_local_index(addr) as usize;
        if idx < self.data.len() {
            self.data[idx]
        } else {
            self.default
        }
    }

    pub fn set(&mut self, addr: LocalAddr, val: T)
        requires
            addr.valid(),
        ensures
            final(self).spec_get(spec_local_index(addr)) == val,
            forall|idx: int|
                idx != spec_local_index(addr) ==> final(self).spec_get(idx) == old(
                    self,
                ).spec_get(idx),
            final(self).spec_default() == old(self).spec_default(),
    {
        let idx = to_local_index(addr) as usize;
        while self.data.len() <= idx
            invariant
                idx < BLOCKS_PER_CHUNK,
                self.default == old(self).spec_default(),
                forall|k: int| self.spec_get(k) == old(self).spec_get(k),
            decreases idx + 1 - self.data.len(),
        {
            self.data.push(self.default);
        }
        self.data[idx] = val;
    }
}

/// Four parallel per-block arrays: packed block state, damage, block
/// light and skylight.
pub struct Chunk {
    block_states: PerBlock<BlockState>,
    damage: PerBlock<u8>,
    light: PerBlock<u8>,
    skylight: PerBlock<u8>,
}

/// Spec-level image of a chunk: each array read out in full, defaults
/// included.
#[verifier::ext_equal]
pub struct ChunkModel {
    pub blocks: Seq<BlockState>,
    pub damage: Seq<u8>,
    pub light: Seq<u8>,
    pub skylight: Seq<u8>,
}

impl ChunkModel {
    pub open spec fn wf(self) -> bool {
        &&& self.blocks.len() == BLOCKS_PER_CHUNK
        &&& self.damage.len() == BLOCKS_PER_CHUNK
        &&& self.light.len() == BLOCKS_PER_CHUNK
        &&& self.skylight.len() == BLOCKS_PER_CHUNK
    }

    /// A fresh column: all air, undamaged, dark, full skylight.
    pub open spec fn empty() -> ChunkModel {
        ChunkModel {
            blocks: Seq::new(BLOCKS_PER_CHUNK as nat, |i: int| BlockState(0)),
            damage: Seq::new(BLOCKS_PER_CHUNK as nat, |i: int| 0u8),
            light: Seq::new(BLOCKS_PER_CHUNK as nat, |i: int| 0u8),
            skylight: Seq::new(BLOCKS_PER_CHUNK as nat, |i: int| 15u8),
        }
    }
}

impl View for Chunk {
    type V = ChunkModel;

    closed spec fn view(&self) -> ChunkModel {
        ChunkModel {
            blocks: Seq::new(BLOCKS_PER_CHUNK as nat, |i: int| self.block_states.spec_get(i)),
            damage: Seq::new(BLOCKS_PER_CHUNK as nat, |i: int| self.damage.spec_get(i)),
            light: Seq::new(BLOCKS_PER_CHUNK as nat, |i: int| self.light.spec_get(i)),
            skylight: Seq::new(BLOCKS_PER_CHUNK as nat, |i: int| self.skylight.spec_get(i)),
        }
    }
}

/// A chunk's image always spans the whole column.
pub broadcast proof fn lemma_chunk_model_wf(c: Chunk)
    ensures
        (#[trigger] c@).wf(),
{
}

impl Chunk {
    pub fn new() -> (r: Chunk)
        ensures
            r@ =~= ChunkModel::empty(),
            r@.wf(),
    {
        let r = Chunk {
            block_states: PerBlock::new(BlockState(0)),
            damage: PerBlock::new(0),
            light: PerBlock::new(0),
            skylight: PerBlock::new(15),
        };
        proof {
            assert(r@ =~= ChunkModel::empty());
        }
        r
    }

    pub fn block_state(&self, addr: LocalAddr) -> (r: BlockState)
        requires
            addr.valid(),
        ensures
            r == self@.blocks[spec_local_index(addr)],
    {
        proof {
            crate::geom::lemma_local_index_round_trip(addr, 0);
        }
        self.block_states.get(addr)
    }

    pub fn set_block_state(&mut self, addr: LocalAddr, val: BlockState)
        requires
            addr.valid(),
        ensures
            final(self)@.blocks =~= old(self)@.blocks.update(spec_local_index(addr), val),
            final(self)@.damage == old(self)@.damage,
            final(self)@.light == old(self)@.light,
            final(self)@.skylight == old(self)@.skylight,
    {
        proof {
            crate::geom::lemma_local_index_round_trip(addr, 0);
        }
        self.block_states.set(addr, val);
        proof {
            assert(final(self)@.blocks =~= old(self)@.blocks.update(spec_local_index(addr), val));
            assert(final(self)@.damage =~= old(self)@.damage);
            assert(final(self)@.light =~= old(self)@.light);
            assert(final(self)@.skylight =~= old(self)@.skylight);
        }
    }

    pub fn damage(&self, addr: LocalAddr) -> (r: u8)
        requires
            addr.valid(),
        ensures
            r == self@.damage[spec_local_index(addr)],
    {
        proof {
            crate::geom::lemma_local_index_round_trip(addr, 0);
        }
        self.damage.get(addr)
    }

    pub fn set_damage(&mut self, addr: LocalAddr, val: u8)
        requires
            addr.valid(),
        ensures
            final(self)@.damage =~= old(self)@.damage.update(spec_local_index(addr), val),
            final(self)@.blocks == old(self)@.blocks,
            final(self)@.light == old(self)@.light,
            final(self)@.skylight == old(self)@.skylight,
    {
        proof {
            crate::geom::lemma_local_index_round_trip(addr, 0);
        }
        self.damage.set(addr, val);
        proof {
            assert(final(self)@.damage =~= old(self)@.damage.update(spec_local_index(addr), val));
            assert(final(self)@.blocks =~= old(self)@.blocks);
            assert(final(self)@.light =~= old(self)@.light);
            assert(final(self)@.skylight =~= old(self)@.skylight);
        }
    }

    pub fn light_level(&self, addr: LocalAddr) -> (r: u8)
        requires
            addr.valid(),
        ensures
            r == self@.light[spec_local_index(addr)],
    {
        proof {
            crate::geom::lemma_local_index_round_trip(addr, 0);
        }
        self.light.get(addr)
    }

    pub fn set_light_level(&mut self, addr: LocalAddr, val: u8)
        requires
            addr.valid(),
        ensures
            final(self)@.light =~= old(self)@.light.update(spec_local_index(addr), val),
            final(self)@.blocks == old(self)@.blocks,
            final(self)@.damage == old(self)@.damage,
            final(self)@.skylight == old(self)@.skylight,
    {
        proof {
            crate::geom::lemma_local_index_round_trip(addr, 0);
        }
        self.light.set(addr, val);
        proof {
            assert(final(self)@.light =~= old(self)@.light.update(spec_local_index(addr), val));
            assert(final(self)@.blocks =~= old(self)@.blocks);
            assert(final(self)@.damage =~= old(self)@.damage);
            assert(final(self)@.skylight =~= old(self)@.skylight);
        }
    }

    pub fn skylight_level(&self, addr: LocalAddr) -> (r: u8)
        requires
            addr.valid(),
        ensures
            r == self@.skylight[spec_local_index(addr)],
    {
        proof {
            crate::geom::lemma_local_index_round_trip(addr, 0);
        }
        self.skylight.get(addr)
    }

    pub fn set_skylight_level(&mut self, addr: LocalAddr, val: u8)
        requires
            addr.valid(),
        ensures
            final(self)@.skylight =~= old(self)@.skylight.update(spec_local_index(addr), val),
            final(self)@.blocks == old(self)@.blocks,
            final(self)@.damage == old(self)@.damage,
            final(self)@.light == old(self)@.light,
    {
        proof {
            crate::geom::lemma_local_index_round_trip(addr, 0);
        }
        self.skylight.set(addr, val);
        proof {
            assert(final(self)@.skylight =~= old(self)@.skylight.update(
                spec_local_index(addr),
                val,
            ));
            assert(final(self)@.blocks =~= old(self)@.blocks);
            assert(final(self)@.damage =~= old(self)@.damage);
            assert(final(self)@.light =~= old(self)@.light);
        }
    }

    /// The packed local addresses whose stored block state carries the
    /// given block id, in strictly ascending address order.
    pub fn find_matching_block_state(&self, block_id: u16) -> (r: Vec<LocalAddr>)
        ensures
            forall|m: int|
                0 <= m < r@.len() ==> (#[trigger] r@[m]).valid() && self@.blocks[spec_local_index(
                    r@[m],
                )].spec_id() == block_id,
            forall|idx: u16|
                self@.blocks[idx as int].spec_id() == block_id ==> exists|m: int|
                    0 <= m < r@.len() && spec_local_index(#[trigger] r@[m]) == idx,
            forall|m: int, n: int|
                0 <= m < n < r@.len() ==> spec_local_index(#[trigger] r@[m]) < spec_local_index(
                    #[trigger] r@[n],
                ),
    {
        let mut r: Vec<LocalAddr> = Vec::new();
        let mut idx: usize = 0;
        while idx < BLOCKS_PER_CHUNK
            invariant
                idx <= BLOCKS_PER_CHUNK,
                forall|m: int|
                    0 <= m < r@.len() ==> (#[trigger] r@[m]).valid() && spec_local_index(r@[m])
                        < idx && self@.blocks[spec_local_index(r@[m])].spec_id() == block_id,
                forall|k: u16|
                    k < idx && self@.blocks[k as int].spec_id() == block_id ==> exists|m: int|
                        0 <= m < r@.len() && spec_local_index(#[trigger] r@[m]) == k,
                forall|m: int, n: int|
                    0 <= m < n < r@.len() ==> spec_local_index(#[trigger] r@[m])
                        < spec_local_index(#[trigger] r@[n]),
            decreases BLOCKS_PER_CHUNK - idx,
        {
            let addr = from_local_index(idx as u16);
            proof {
                crate::geom::lemma_local_index_round_trip(addr, idx as u16);
            }
            let bs = self.block_state(addr);
            let hit = bs.id() == block_id;
            let ghost prev = r@;
            if hit {
                r.push(addr);
            }
            proof {
                assert forall|k: u16|
                    k < idx + 1 && self@.blocks[k as int].spec_id() == block_id implies exists|
                    m: int,
                |
                    0 <= m < r@.len() && spec_local_index(#[trigger] r@[m]) == k by {
                    if k < idx {
                        let m = choose|m: int|
                            0 <= m < prev.len() && spec_local_index(#[trigger] prev[m]) == k;
                        assert(r@[m] == prev[m]);
                        assert(spec_local_index(r@[m]) == k);
                    } else {
                        assert(spec_local_index(r@[r@.len() - 1]) == idx);
                    }
                }
            }
            idx += 1;
        }
        r
    }
}

// ---------------------------------------------------------------------
// Section unpack: bits-per-block, optional palette, packed indices,
// and two nibble arrays of light
// ---------------------------------------------------------------------

impl WireItem for u16 {
    /// A palette entry: a variable-length integer truncated to the
    /// packed block-state width.
    open spec fn parse_item(b: Seq<u8>, i: int) -> Option<(Self, int)> {
        match spec_parse_varint(b, i, 5) {
            Some((v, j)) => Some(((v as u16), j)),
            None => None,
        }
    }
}

impl WireItem for u64 {
    /// One big-endian word of the packed index stream.
    open spec fn parse_item(b: Seq<u8>, i: int) -> Option<(Self, int)> {
        spec_parse_u64(b, i)
    }
}

/// How many 64-bit words carry 4096 indices of `bpb` bits each.
pub open spec fn spec_word_count(bpb: nat) -> nat {
    (4096 * bpb + 63) / 64
}

/// The mask keeping the low `bpb` bits of an extracted index.
pub open spec fn spec_bpb_mask(bpb: u8) -> u16 {
    0xFFFFu16 >> ((16 - bpb) as u16)
}

/// Index `i` of the packed stream: the `bpb` bits starting at bit
/// `i * bpb`, where word `k` of the stream carries bits
/// `[64k, 64k + 64)` least-significant first.
pub open spec fn spec_packed_index(words: Seq<u64>, bpb: u8, i: nat) -> u16 {
    let o = i * bpb;
    let w = o / 64;
    let lo: u128 = if w < words.len() {
        words[w as int] as u128
    } else {
        0
    };
    let hi: u128 = if w + 1 < words.len() {
        words[w as int + 1] as u128
    } else {
        0
    };
    ((((hi << 64) | lo) >> ((o % 64) as u128)) as u16) & spec_bpb_mask(bpb)
}

fn packed_index(words: &Vec<u64>, bpb: u8, i: usize) -> (r: u16)
    requires
        1 <= bpb <= 16,
        i < 4096,
    ensures
        r == spec_packed_index(words@, bpb, i as nat),
{
    proof {
        assert(i * (bpb as int) <= 4095 * 16) by (nonlinear_arith)
            requires
                i < 4096 && 1 <= bpb <= 16,
        ;
    }
    let o: usize = i * (bpb as usize);
    let w: usize = o / 64;
    let lo: u128 = if w < words.len() {
        words[w] as u128
    } else {
        0
    };
    let hi: u128 = if w + 1 < words.len() {
        words[w + 1] as u128
    } else {
        0
    };
    let mask: u16 = 0xFFFFu16 >> ((16 - bpb) as u16);
    ((((hi << 64) | lo) >> ((o % 64) as u32)) as u16) & mask
}

/// One present section of a chunk-data payload, as parsed from the
/// wire: bits per block, the palette when indices are palette-coded,
/// the packed index words, and the two raw nibble arrays.
#[verifier::ext_equal]
pub struct SectionModel {
    pub bpb: u8,
    pub palette: Option<Seq<u16>>,
    pub words: Seq<u64>,
    pub light: Seq<u8>,
    pub skylight: Seq<u8>,
}

/// The block state at in-section address `k`: the packed index, mapped
/// through the palette when one is present.  `None` marks a palette
/// index out of range, which fails the decode.
pub open spec fn section_block(sec: SectionModel, k: int) -> Option<BlockState> {
    let idx = spec_packed_index(sec.words, sec.bpb, k as nat);
    match sec.palette {
        Some(p) => {
            if idx < p.len() {
                Some(BlockState(p[idx as int]))
            } else {
                None
            }
        },
        None => Some(BlockState(idx)),
    }
}

pub open spec fn section_block_or_air(sec: SectionModel, k: int) -> BlockState {
    match section_block(sec, k) {
        Some(bs) => bs,
        None => BlockState(0),
    }
}

/// Every packed index of the section falls inside its palette.
pub open spec fn section_palette_ok(sec: SectionModel) -> bool {
    forall|k: int| 0 <= k < 4096 ==> (#[trigger] section_block(sec, k)) is Some
}

/// The two half-byte light values packed into each byte: low nibble
/// first.
pub open spec fn spec_nibble(bytes: Seq<u8>, k: int) -> u8 {
    if k % 2 == 0 {
        bytes[k / 2] & 0x0F
    } else {
        bytes[k / 2] >> 4
    }
}

/// Parse one section at offset `i`: bits per block (1 to 16), a
/// palette when at most 8, a discarded on-wire byte length, the packed
/// index words, then 2048 bytes of block light and 2048 of skylight.
pub open spec fn spec_parse_section(b: Seq<u8>, i: int) -> Option<(SectionModel, int)> {
    match spec_parse_u8(b, i) {
        Some((bpb, j1)) => {
            if bpb == 0 || bpb > 16 {
                None
            } else {
                let pal_step: Option<(Option<Seq<u16>>, int)> = if bpb <= 8 {
                    match spec_parse_varint(b, j1, 5) {
                        Some((cnt, j2)) => match spec_parse_list::<u16>(b, j2, spec_list_len(cnt)) {
                            Some((pal, j3)) => Some((Some(pal), j3)),
                            None => None,
                        },
                        None => None,
                    }
                } else {
                    Some((None, j1))
                };
                match pal_step {
                    Some((palette, j3)) => match spec_parse_varint(b, j3, 5) {
                        Some((_, j4)) => match spec_parse_list::<u64>(
                            b,
                            j4,
                            spec_word_count(bpb as nat),
                        ) {
                            Some((words, j5)) => {
                                if j5 + 4096 <= b.len() {
                                    Some(
                                        (
                                            SectionModel {
                                                bpb,
                                                palette,
                                                words,
                                                light: b.subrange(j5, j5 + 2048),
                                                skylight: b.subrange(j5 + 2048, j5 + 4096),
                                            },
                                            j5 + 4096,
                                        ),
                                    )
                                } else {
                                    None
                                }
                            },
                            None => None,
                        },
                        None => None,
                    },
                    None => None,
                }
            }
        },
        None => None,
    }
}

/// A parsed section written into a chunk at its vertical offset: the
/// 4096 block states and the two nibble arrays replace that slice of
/// the column, and everything else is kept.
pub open spec fn spec_apply_section(c: ChunkModel, sec: SectionModel, y_offset: u8) -> ChunkModel {
    let base = 256 * (y_offset as int);
    ChunkModel {
        blocks: Seq::new(
            BLOCKS_PER_CHUNK as nat,
            |a: int|
                if base <= a < base + 4096 {
                    section_block_or_air(sec, a - base)
                } else {
                    c.blocks[a]
                },
        ),
        damage: c.damage,
        light: Seq::new(
            BLOCKS_PER_CHUNK as nat,
            |a: int|
                if base <= a < base + 4096 {
                    spec_nibble(sec.light, a - base)
                } else {
                    c.light[a]
                },
        ),
        skylight: Seq::new(
            BLOCKS_PER_CHUNK as nat,
            |a: int|
                if base <= a < base + 4096 {
                    spec_nibble(sec.skylight, a - base)
                } else {
                    c.skylight[a]
                },
        ),
    }
}

fn read_palette_entry(buf: &Vec<u8>, pos: &mut usize) -> (r: Result<u16, DecodeError>)
    requires
        *old(pos) <= buf@.len(),
    ensures
        *final(pos) <= buf@.len(),
        *old(pos) <= *final(pos),
        match <u16 as WireItem>::parse_item(buf@, *old(pos) as int) {
            Some((m, j)) => r == Ok::<u16, DecodeError>(m) && *final(pos) == j,
            None => r is Err,
        },
{
    match read_varint_u32(buf, pos) {
        Ok(v) => Ok(v as u16),
        Err(e) => Err(e),
    }
}

fn read_palette(buf: &Vec<u8>, pos: &mut usize, n: u32) -> (r: Result<Vec<u16>, DecodeError>)
    requires
        *old(pos) <= buf@.len(),
    ensures
        *final(pos) <= buf@.len(),
        *old(pos) <= *final(pos),
        match spec_parse_list::<u16>(buf@, *old(pos) as int, n as nat) {
            Some((s, j)) => r matches Ok(v) && v@ == s && *final(pos) == j,
            None => r is Err,
        },
{
    let ghost i0 = *old(pos) as int;
    let mut out: Vec<u16> = Vec::new();
    let mut k: u32 = 0;
    proof {
        crate::packets::lemma_list_cont_init::<u16>(buf@, i0, n as nat);
    }
    while k < n
        invariant
            k <= n,
            *pos <= buf@.len(),
            i0 == *old(pos) as int,
            i0 <= *pos as int,
            crate::packets::list_cont_ok::<u16>(buf@, i0, n as nat, out@, *pos as int, k as nat),
        decreases n - k,
    {
        let ghost item_pos = *pos as int;
        let rec = match read_palette_entry(buf, pos) {
            Ok(v) => v,
            Err(e) => {
                proof {
                    crate::packets::lemma_list_cont_fail::<u16>(
                        buf@,
                        i0,
                        n as nat,
                        out@,
                        item_pos,
                        k as nat,
                    );
                }
                return Err(e)
            },
        };
        proof {
            crate::packets::lemma_list_cont_step::<u16>(
                buf@,
                i0,
                n as nat,
                out@,
                item_pos,
                k as nat,
                rec,
                *pos as int,
            );
        }
        out.push(rec);
        k += 1;
    }
    proof {
        crate::packets::lemma_list_cont_finish::<u16>(buf@, i0, n as nat, out@, *pos as int);
    }
    Ok(out)
}

fn read_word(buf: &Vec<u8>, pos: &mut usize) -> (r: Result<u64, DecodeError>)
    requires
        *old(pos) <= buf@.len(),
    ensures
        *final(pos) <= buf@.len(),
        *old(pos) <= *final(pos),
        match <u64 as WireItem>::parse_item(buf@, *old(pos) as int) {
            Some((m, j)) => r == Ok::<u64, DecodeError>(m) && *final(pos) == j,
            None => r is Err && *final(pos) == *old(pos),
        },
{
    crate::wire::read_u64(buf, pos)
}

fn read_words(buf: &Vec<u8>, pos: &mut usize, n: u32) -> (r: Result<Vec<u64>, DecodeError>)
    requires
        *old(pos) <= buf@.len(),
    ensures
        *final(pos) <= buf@.len(),
        *old(pos) <= *final(pos),
        match spec_parse_list::<u64>(buf@, *old(pos) as int, n as nat) {
            Some((s, j)) => r matches Ok(v) && v@ == s && *final(pos) == j,
            None => r is Err,
        },
{
    let ghost i0 = *old(pos) as int;
    let mut out: Vec<u64> = Vec::new();
    let mut k: u32 = 0;
    proof {
        crate::packets::lemma_list_cont_init::<u64>(buf@, i0, n as nat);
    }
    while k < n
        invariant
            k <= n,
            *pos <= buf@.len(),
            i0 == *old(pos) as int,
            i0 <= *pos as int,
            crate::packets::list_cont_ok::<u64>(buf@, i0, n as nat, out@, *pos as int, k as nat),
        decreases n - k,
    {
        let ghost item_pos = *pos as int;
        let rec = match read_word(buf, pos) {
            Ok(v) => v,
            Err(e) => {
                proof {
                    crate::packets::lemma_list_cont_fail::<u64>(
                        buf@,
                        i0,
                        n as nat,
                        out@,
                        item_pos,
                        k as nat,
                    );
                }
                return Err(e)
            },
        };
        proof {
            crate::packets::lemma_list_cont_step::<u64>(
                buf@,
                i0,
                n as nat,
                out@,
                item_pos,
                k as nat,
                rec,
                *pos as int,
            );
        }
        out.push(rec);
        k += 1;
    }
    proof {
        crate::packets::lemma_list_cont_finish::<u64>(buf@, i0, n as nat, out@, *pos as int);
    }
    Ok(out)
}

/// Unpack one present section from a chunk-data payload into the
/// column at the given vertical offset: 4096 packed block states,
/// then 2048 bytes of block light and 2048 of skylight, low nibble
/// first.  On an error the column may be partially written; the
/// caller discards it.
pub fn load_single_chunk(
    chunk: &mut Chunk,
    y_offset: u8,
    data: &Vec<u8>,
    pos: &mut usize,
) -> (r: Result<(), DecodeError>)
    requires
        *old(pos) <= data@.len(),
        y_offset <= 240,
    ensures
        *final(pos) <= data@.len(),
        match spec_parse_section(data@, *old(pos) as int) {
            Some((sec, j)) => {
                if section_palette_ok(sec) {
                    r is Ok && final(chunk)@ =~= spec_apply_section(old(chunk)@, sec, y_offset)
                        && *final(pos) == j
                } else {
                    r is Err
                }
            },
            None => r is Err,
        },
{
    let ghost c0 = chunk@;
    let ghost i_in = *old(pos) as int;
    let bpb = match read_u8(data, pos) {
        Ok(v) => v,
        Err(e) => { return Err(e) },
    };
    if bpb == 0 || bpb > 16 {
        return Err(DecodeError::BadShape);
    }
    let palette: Option<Vec<u16>> = if bpb <= 8 {
        let cnt = match read_varint_u32(data, pos) {
            Ok(v) => v,
            Err(e) => { return Err(e) },
        };
        proof {
            crate::wire::lemma_u32_i32_sign(cnt);
        }
        let n: u32 = if (cnt as i32) < 0 {
            0
        } else {
            cnt
        };
        match read_palette(data, pos, n) {
            Ok(v) => Some(v),
            Err(e) => { return Err(e) },
        }
    } else {
        None
    };
    match read_varint_u32(data, pos) {
        Ok(_) => (),
        Err(e) => { return Err(e) },
    };
    let nwords: usize = (4096 * (bpb as usize) + 63) / 64;
    proof {
        assert(nwords as nat == spec_word_count(bpb as nat));
    }
    let words = match read_words(data, pos, nwords as u32) {
        Ok(v) => v,
        Err(e) => { return Err(e) },
    };
    if data.len() - *pos < 4096 {
        return Err(DecodeError::ShortFrame);
    }
    let light_bytes = copy_range(data, *pos, *pos + 2048);
    let sky_bytes = copy_range(data, *pos + 2048, *pos + 4096);
    *pos += 4096;
    let ghost palv: Option<Seq<u16>> = match &palette {
        Some(p) => Some(p@),
        None => None,
    };
    let ghost sec = SectionModel {
        bpb,
        palette: palv,
        words: words@,
        light: light_bytes@,
        skylight: sky_bytes@,
    };
    proof {
        assert(spec_parse_section(data@, i_in) == Some::<(SectionModel, int)>(
            (sec, *pos as int),
        ));
    }
    let base: usize = 256 * (y_offset as usize);
    let mut k: usize = 0;
    while k < 4096
        invariant
            k <= 4096,
            base == 256 * (y_offset as int),
            y_offset <= 240,
            1 <= bpb <= 16,
            bpb == sec.bpb,
            words@ == sec.words,
            (match &palette {
                Some(p) => sec.palette == Some(p@),
                None => sec.palette is None,
            }),
            *pos <= data@.len(),
            i_in == *old(pos) as int,
            spec_parse_section(data@, i_in) == Some::<(SectionModel, int)>((sec, *pos as int)),
            forall|a: int|
                base <= a < base + k ==> #[trigger] chunk@.blocks[a] == section_block_or_air(
                    sec,
                    a - base,
                ) && section_block(sec, a - base) is Some,
            forall|a: int|
                0 <= a < BLOCKS_PER_CHUNK && !(base <= a < base + k)
                    ==> #[trigger] chunk@.blocks[a] == c0.blocks[a],
            chunk@.damage == c0.damage,
            chunk@.light == c0.light,
            chunk@.skylight == c0.skylight,
        decreases 4096 - k,
    {
        let idx = packed_index(&words, bpb, k);
        let bs = match &palette {
            Some(p) => {
                if (idx as usize) < p.len() {
                    BlockState(p[idx as usize])
                } else {
                    proof {
                        assert(section_block(sec, k as int) is None);
                        assert(!section_palette_ok(sec));
                    }
                    return Err(DecodeError::BadShape);
                }
            },
            None => BlockState(idx),
        };
        let addr = from_local_index((base + k) as u16);
        proof {
            crate::geom::lemma_local_index_round_trip(addr, (base + k) as u16);
        }
        chunk.set_block_state(addr, bs);
        k += 1;
    }
    proof {
        assert forall|kk: int| 0 <= kk < 4096 implies (#[trigger] section_block(sec, kk))
            is Some by {
            assert(chunk@.blocks[base + kk] == section_block_or_air(sec, kk));
        }
        assert(section_palette_ok(sec));
    }
    let mut k: usize = 0;
    while k < 2048
        invariant
            k <= 2048,
            base == 256 * (y_offset as int),
            y_offset <= 240,
            light_bytes@ == sec.light,
            light_bytes@.len() == 2048,
            section_palette_ok(sec),
            *pos <= data@.len(),
            i_in == *old(pos) as int,
            spec_parse_section(data@, i_in) == Some::<(SectionModel, int)>((sec, *pos as int)),
            forall|a: int|
                base <= a < base + 4096 ==> #[trigger] chunk@.blocks[a] == section_block_or_air(
                    sec,
                    a - base,
                ),
            forall|a: int|
                0 <= a < BLOCKS_PER_CHUNK && !(base <= a < base + 4096)
                    ==> #[trigger] chunk@.blocks[a] == c0.blocks[a],
            forall|a: int|
                base <= a < base + 2 * k ==> #[trigger] chunk@.light[a] == spec_nibble(
                    sec.light,
                    a - base,
                ),
            forall|a: int|
                0 <= a < BLOCKS_PER_CHUNK && !(base <= a < base + 2 * k)
                    ==> #[trigger] chunk@.light[a] == c0.light[a],
            chunk@.damage == c0.damage,
            chunk@.skylight == c0.skylight,
        decreases 2048 - k,
    {
        let b = light_bytes[k];
        let addr_lo = from_local_index((base + 2 * k) as u16);
        proof {
            crate::geom::lemma_local_index_round_trip(addr_lo, (base + 2 * k) as u16);
        }
        chunk.set_light_level(addr_lo, b & 0x0F);
        let addr_hi = from_local_index((base + 2 * k + 1) as u16);
        proof {
            crate::geom::lemma_local_index_round_trip(addr_hi, (base + 2 * k + 1) as u16);
        }
        chunk.set_light_level(addr_hi, b >> 4);
        k += 1;
    }
    let mut k: usize = 0;
    while k < 2048
        invariant
            k <= 2048,
            base == 256 * (y_offset as int),
            y_offset <= 240,
            sky_bytes@ == sec.skylight,
            sky_bytes@.len() == 2048,
            section_palette_ok(sec),
            *pos <= data@.len(),
            i_in == *old(pos) as int,
            spec_parse_section(data@, i_in) == Some::<(SectionModel, int)>((sec, *pos as int)),
            forall|a: int|
                base <= a < base + 4096 ==> #[trigger] chunk@.blocks[a] == section_block_or_air(
                    sec,
                    a - base,
                ),
            forall|a: int|
                0 <= a < BLOCKS_PER_CHUNK && !(base <= a < base + 4096)
                    ==> #[trigger] chunk@.blocks[a] == c0.blocks[a],
            forall|a: int|
                base <= a < base + 4096 ==> #[trigger] chunk@.light[a] == spec_nibble(
                    sec.light,
                    a - base,
                ),
            forall|a: int|
                0 <= a < BLOCKS_PER_CHUNK && !(base <= a < base + 4096)
                    ==> #[trigger] chunk@.light[a] == c0.light[a],
            forall|a: int|
                base <= a < base + 2 * k ==> #[trigger] chunk@.skylight[a] == spec_nibble(
                    sec.skylight,
                    a - base,
                ),
            forall|a: int|
                0 <= a < BLOCKS_PER_CHUNK && !(base <= a < base + 2 * k)
                    ==> #[trigger] chunk@.skylight[a] == c0.skylight[a],
            chunk@.damage == c0.damage,
        decreases 2048 - k,
    {
        let b = sky_bytes[k];
        let addr_lo = from_local_index((base + 2 * k) as u16);
        proof {
            crate::geom::lemma_local_index_round_trip(addr_lo, (base + 2 * k) as u16);
        }
        chunk.set_skylight_level(addr_lo, b & 0x0F);
        let addr_hi = from_local_index((base + 2 * k + 1) as u16);
        proof {
            crate::geom::lemma_local_index_round_trip(addr_hi, (base + 2 * k + 1) as u16);
        }
        chunk.set_skylight_level(addr_hi, b >> 4);
        k += 1;
    }
    proof {
        assert(chunk@ =~= spec_apply_section(c0, sec, y_offset));
    }
    Ok(())
}

} // verus!
