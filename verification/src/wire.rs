//! Wire primitives: variable-length integers, fixed-width big-endian
//! numbers, length-prefixed strings and byte blobs.
//!
//! Every encoder is specified against a spec-level byte-sequence model
//! (`spec_emit_*`), every decoder against a spec-level parser
//! (`spec_parse_*`), and round-trip lemmas tie the two together.
//!
//! A variable-length integer is little-endian base-128 with a
//! continuation bit; a signed 32-bit value is encoded by zero-extension,
//! so negative values are always five bytes.  Decoding consumes at most
//! five bytes; a fifth byte with its continuation bit still set is a
//! malformed input and is rejected.

use vstd::prelude::*;

verus! {

/// Why a frame failed to decode.  Any of these is fatal for the
/// connection that produced the frame.
#[derive(Clone, Copy, PartialEq, Eq, Debug, Structural)]
pub enum DecodeError {
    /// The frame ended before the announced data did.
    ShortFrame,
    /// A length-prefixed string held bytes that are not UTF-8.
    BadUtf8,
    /// The leading packet ordinal named no known variant.
    UnknownOrdinal,
    /// A field held a value its schema cannot carry.
    BadShape,
}

// ---------------------------------------------------------------------
// Variable-length integers
// ---------------------------------------------------------------------

/// Parse a variable-length integer at offset `i`, reading at most `rem`
/// bytes.  The value is assembled least-significant group first and
/// truncated to 32 bits, exactly as the executable decoder does.
pub open spec fn spec_parse_varint(b: Seq<u8>, i: int, rem: nat) -> Option<(u32, int)>
    decreases rem,
{
    if rem == 0 || i < 0 || i >= b.len() {
        None
    } else {
        let byte = b[i];
        if byte & 0x80 == 0 {
            Some((((byte & 0x7f) as u32), i + 1))
        } else {
            match spec_parse_varint(b, i + 1, (rem - 1) as nat) {
                Some((hi, j)) => Some(((((byte & 0x7f) as u32) | (hi << 7)), j)),
                None => None,
            }
        }
    }
}

/// Emit a 32-bit value as a variable-length integer, seven bits at a
/// time, least significant group first.
pub open spec fn spec_emit_varint(v: u32) -> Seq<u8>
    decreases v,
{
    if v < 0x80 {
        seq![v as u8]
    } else {
        seq![((v & 0x7f) | 0x80) as u8] + spec_emit_varint(v / 0x80)
    }
}

/// The encoded size of each value range: one byte per seven value bits.
pub proof fn lemma_emit_varint_len(v: u32)
    ensures
        1 <= spec_emit_varint(v).len() <= 5,
        v < 0x80 ==> spec_emit_varint(v).len() == 1,
        0x80 <= v < 0x4000 ==> spec_emit_varint(v).len() == 2,
        0x4000 <= v < 0x20_0000 ==> spec_emit_varint(v).len() == 3,
        0x20_0000 <= v < 0x1000_0000 ==> spec_emit_varint(v).len() == 4,
        0x1000_0000 <= v ==> spec_emit_varint(v).len() == 5,
    decreases v,
{
    if v < 0x80 {
    } else {
        assert(v / 0x80 < v && (0x80 <= v < 0x4000 ==> v / 0x80 < 0x80) && (0x4000 <= v < 0x20_0000
            ==> 0x80 <= v / 0x80 < 0x4000) && (0x20_0000 <= v < 0x1000_0000 ==> 0x4000 <= v / 0x80
            < 0x20_0000) && (0x1000_0000 <= v ==> 0x20_0000 <= v / 0x80 < 0x1000_0000))
            by (bit_vector)
            requires
                v >= 0x80,
        ;
        lemma_emit_varint_len(v / 0x80);
    }
}

/// Parsing finds exactly the value that was emitted: if the bytes at
/// offset `i` are the emitted form of `v`, the parser returns `v` and
/// stops right after it.
pub proof fn lemma_parse_varint_emit(b: Seq<u8>, i: int, v: u32, rem: nat)
    requires
        0 <= i,
        spec_emit_varint(v).len() <= rem,
        i + spec_emit_varint(v).len() <= b.len(),
        b.subrange(i, i + spec_emit_varint(v).len() as int) == spec_emit_varint(v),
    ensures
        spec_parse_varint(b, i, rem) == Some::<(u32, int)>(
            (v, i + spec_emit_varint(v).len() as int),
        ),
    decreases v,
{
    let e = spec_emit_varint(v);
    assert(b[i] == e[0]);
    if v < 0x80 {
        assert(e[0] == v as u8);
        assert((v as u8) & 0x80 == 0 && ((v as u8) & 0x7f) as u32 == v) by (bit_vector)
            requires
                v < 0x80,
        ;
    } else {
        let first = ((v & 0x7f) | 0x80) as u8;
        assert(e[0] == first);
        assert(first & 0x80 != 0) by (bit_vector)
            requires
                first == ((v & 0x7f) | 0x80) as u8,
        ;
        let hi = v / 0x80;
        assert(hi < v) by (bit_vector)
            requires
                hi == v / 0x80 && v >= 0x80,
        ;
        let etail = spec_emit_varint(hi);
        assert(e == seq![first] + etail);
        assert(b.subrange(i + 1, i + 1 + etail.len() as int) =~= e.subrange(1, e.len() as int));
        assert(e.subrange(1, e.len() as int) =~= etail);
        lemma_emit_varint_len(v);
        lemma_parse_varint_emit(b, i + 1, hi, (rem - 1) as nat);
        assert((first & 0x7f) as u32 | ((v / 0x80) << 7) == v) by (bit_vector)
            requires
                first == ((v & 0x7f) | 0x80) as u8 && v >= 0x80,
        ;
    }
}

fn read_varint_u32_rec(buf: &Vec<u8>, pos: &mut usize, rem: u8) -> (r: Result<u32, DecodeError>)
    requires
        *old(pos) <= buf@.len(),
    ensures
        *final(pos) <= buf@.len(),
        *old(pos) <= *final(pos),
        match spec_parse_varint(buf@, *old(pos) as int, rem as nat) {
            Some((v, j)) => r == Ok::<u32, DecodeError>(v) && *final(pos) == j,
            None => r is Err,
        },
    decreases rem,
{
    if rem == 0 || *pos >= buf.len() {
        return Err(DecodeError::ShortFrame);
    }
    let byte: u8 = buf[*pos];
    *pos += 1;
    if byte & 0x80 == 0 {
        Ok((byte & 0x7f) as u32)
    } else {
        match read_varint_u32_rec(buf, pos, rem - 1) {
            Ok(hi) => Ok(((byte & 0x7f) as u32) | (hi << 7)),
            Err(e) => Err(e),
        }
    }
}

/// Read a variable-length integer as its unsigned 32-bit image.
pub fn read_varint_u32(buf: &Vec<u8>, pos: &mut usize) -> (r: Result<u32, DecodeError>)
    requires
        *old(pos) <= buf@.len(),
    ensures
        *final(pos) <= buf@.len(),
        *old(pos) <= *final(pos),
        match spec_parse_varint(buf@, *old(pos) as int, 5) {
            Some((v, j)) => r == Ok::<u32, DecodeError>(v) && *final(pos) == j,
            None => r is Err,
        },
{
    read_varint_u32_rec(buf, pos, 5)
}

/// Read a variable-length integer as the signed 32-bit value it encodes.
pub fn read_varint_i32(buf: &Vec<u8>, pos: &mut usize) -> (r: Result<i32, DecodeError>)
    requires
        *old(pos) <= buf@.len(),
    ensures
        *final(pos) <= buf@.len(),
        *old(pos) <= *final(pos),
        match spec_parse_varint(buf@, *old(pos) as int, 5) {
            Some((v, j)) => r == Ok::<i32, DecodeError>(v as i32) && *final(pos) == j,
            None => r is Err,
        },
{
    match read_varint_u32(buf, pos) {
        Ok(v) => Ok(v as i32),
        Err(e) => Err(e),
    }
}

/// Append the variable-length encoding of an unsigned 32-bit image.
pub fn write_varint_u32(out: &mut Vec<u8>, v: u32)
    ensures
        final(out)@ == old(out)@ + spec_emit_varint(v),
    decreases v,
{
    if v < 0x80 {
        out.push(v as u8);
        assert(final(out)@ =~= old(out)@ + spec_emit_varint(v));
    } else {
        out.push(((v & 0x7f) | 0x80) as u8);
        write_varint_u32(out, v / 0x80);
        assert(final(out)@ =~= old(out)@ + spec_emit_varint(v));
    }
}

/// Append the variable-length encoding of a signed 32-bit value
/// (zero-extended, so negative values take five bytes).
pub fn write_varint_i32(out: &mut Vec<u8>, v: i32)
    ensures
        final(out)@ == old(out)@ + spec_emit_varint(v as u32),
{
    write_varint_u32(out, v as u32)
}

/// A signed value survives the unsigned round trip.
pub proof fn lemma_varint_i32_round_trip(v: i32)
    ensures
        (v as u32) as i32 == v,
{
    assert((v as u32) as i32 == v) by (bit_vector);
}

/// A 32-bit unsigned value reads as a non-negative signed value
/// exactly when it is below the sign bit.
pub proof fn lemma_u32_i32_sign(v: u32)
    ensures
        (v as i32 >= 0) == (v < 0x8000_0000),
{
    assert((v as i32 >= 0) == (v < 0x8000_0000)) by (bit_vector);
}

/// A signed 64-bit value survives the unsigned round trip.
pub proof fn lemma_u64_i64_round_trip(v: i64)
    ensures
        (v as u64) as i64 == v,
{
    assert((v as u64) as i64 == v) by (bit_vector);
}

/// The codec's sizing table: the byte count of the variable-length
/// encoding of a signed 32-bit value, without encoding it.
pub struct VarNum;

impl VarNum {
    /// How many bytes `encode` will append for `val`.
    pub fn encoded_size(&self, val: i32) -> (r: usize)
        ensures
            r == spec_emit_varint(val as u32).len(),
    {
        proof {
            lemma_emit_varint_len(val as u32);
            assert((val < 0 ==> (val as u32) >= 0x1000_0000) && (0 <= val <= 0x7f ==> (
            val as u32) < 0x80) && (0x7f < val <= 0x3fff ==> 0x80 <= (val as u32) < 0x4000) && (
            0x3fff < val <= 0x1f_ffff ==> 0x4000 <= (val as u32) < 0x20_0000) && (0x1f_ffff < val
                <= 0xfff_ffff ==> 0x20_0000 <= (val as u32) < 0x1000_0000) && (val > 0xfff_ffff
                ==> (val as u32) >= 0x1000_0000)) by (bit_vector);
        }
        if val < 0 {
            5
        } else if val <= 0x7f {
            1
        } else if val <= 0x3fff {
            2
        } else if val <= 0x1f_ffff {
            3
        } else if val <= 0xfff_ffff {
            4
        } else {
            5
        }
    }

    /// Append the variable-length encoding of `val`.
    pub fn encode(&self, val: i32, buf: &mut Vec<u8>)
        ensures
            final(buf)@ == old(buf)@ + spec_emit_varint(val as u32),
    {
        write_varint_i32(buf, val);
    }

    /// Read a variable-length integer from `buf` at `pos`.
    pub fn decode(&self, buf: &Vec<u8>, pos: &mut usize) -> (r: Result<i32, DecodeError>)
        requires
            *old(pos) <= buf@.len(),
        ensures
            *final(pos) <= buf@.len(),
            *old(pos) <= *final(pos),
            match spec_parse_varint(buf@, *old(pos) as int, 5) {
                Some((v, j)) => r == Ok::<i32, DecodeError>(v as i32) && *final(pos) == j,
                None => r is Err,
            },
    {
        read_varint_i32(buf, pos)
    }
}

// ---------------------------------------------------------------------
// Fixed-width big-endian numbers
// ---------------------------------------------------------------------

/// 256 to the power `n`: the number of values `n` bytes can carry.
pub open spec fn pow256(n: nat) -> nat
    decreases n,
{
    if n == 0 {
        1
    } else {
        256 * pow256((n - 1) as nat)
    }
}

proof fn lemma_pow256_16()
    ensures
        pow256(1) == 0x100,
        pow256(2) == 0x1_0000,
        pow256(4) == 0x1_0000_0000,
        pow256(8) == 0x1_0000_0000_0000_0000,
        pow256(16) == 0x1_0000_0000_0000_0000_0000_0000_0000_0000,
{
    assert(pow256(0) == 1);
    assert(pow256(1) == 0x100);
    assert(pow256(2) == 0x1_0000);
    assert(pow256(3) == 0x100_0000);
    assert(pow256(4) == 0x1_0000_0000);
    assert(pow256(5) == 0x100_0000_0000);
    assert(pow256(6) == 0x1_0000_0000_0000);
    assert(pow256(7) == 0x100_0000_0000_0000);
    assert(pow256(8) == 0x1_0000_0000_0000_0000);
    assert(pow256(9) == 0x100_0000_0000_0000_0000);
    assert(pow256(10) == 0x1_0000_0000_0000_0000_0000);
    assert(pow256(11) == 0x100_0000_0000_0000_0000_0000);
    assert(pow256(12) == 0x1_0000_0000_0000_0000_0000_0000);
    assert(pow256(13) == 0x100_0000_0000_0000_0000_0000_0000);
    assert(pow256(14) == 0x1_0000_0000_0000_0000_0000_0000_0000);
    assert(pow256(15) == 0x100_0000_0000_0000_0000_0000_0000_0000);
    assert(pow256(16) == 0x1_0000_0000_0000_0000_0000_0000_0000_0000);
}

/// The unsigned value of the `n` bytes at offset `i`, most significant
/// byte first.
pub open spec fn spec_be_value(b: Seq<u8>, i: int, n: nat) -> nat
    decreases n,
{
    if n == 0 {
        0
    } else {
        (spec_be_value(b, i, (n - 1) as nat) * 256 + b[i + n - 1]) as nat
    }
}

/// The `n`-byte big-endian image of `v`.
pub open spec fn spec_be_bytes(v: nat, n: nat) -> Seq<u8>
    decreases n,
{
    if n == 0 {
        Seq::empty()
    } else {
        spec_be_bytes(v / 256, (n - 1) as nat).push((v % 256) as u8)
    }
}

pub proof fn lemma_be_bytes_len(v: nat, n: nat)
    ensures
        spec_be_bytes(v, n).len() == n,
    decreases n,
{
    if n > 0 {
        lemma_be_bytes_len(v / 256, (n - 1) as nat);
    }
}

/// Reading back the emitted big-endian image yields the value.
pub proof fn lemma_be_round_trip(b: Seq<u8>, i: int, v: nat, n: nat)
    requires
        0 <= i,
        v < pow256(n),
        i + n <= b.len(),
        b.subrange(i, i + n) == spec_be_bytes(v, n),
    ensures
        spec_be_value(b, i, n) == v,
    decreases n,
{
    lemma_be_bytes_len(v, n);
    if n == 0 {
    } else {
        let e = spec_be_bytes(v, n);
        let epre = spec_be_bytes(v / 256, (n - 1) as nat);
        lemma_be_bytes_len(v / 256, (n - 1) as nat);
        assert(b.subrange(i, i + n - 1) =~= e.subrange(0, n - 1));
        assert(e.subrange(0, n - 1) =~= epre);
        assert(v / 256 < pow256((n - 1) as nat)) by {
            lemma_div_bound(v, pow256((n - 1) as nat));
        }
        lemma_be_round_trip(b, i, v / 256, (n - 1) as nat);
        assert(b[i + n - 1] == e[n - 1]);
        assert(e[n - 1] == (v % 256) as u8);
    }
}

proof fn lemma_div_bound(v: nat, m: nat)
    requires
        v < 256 * m,
        m > 0,
    ensures
        v / 256 < m,
{
    assert(v / 256 < m) by (nonlinear_arith)
        requires
            v < 256 * m && m > 0,
    ;
}

/// Read `n` big-endian bytes as an unsigned value, `n` at most 16.
pub fn read_be(buf: &Vec<u8>, pos: &mut usize, n: usize) -> (r: Result<u128, DecodeError>)
    requires
        *old(pos) <= buf@.len(),
        n <= 16,
    ensures
        *final(pos) <= buf@.len(),
        *old(pos) <= *final(pos),
        if *old(pos) + n <= buf@.len() {
            r == Ok::<u128, DecodeError>(spec_be_value(buf@, *old(pos) as int, n as nat) as u128)
                && *final(pos) == *old(pos) + n && spec_be_value(buf@, *old(pos) as int, n as nat)
                < pow256(n as nat)
        } else {
            r is Err && *final(pos) == *old(pos)
        },
{
    let blen: usize = buf.len();
    if blen - *pos < n {
        return Err(DecodeError::ShortFrame);
    }
    let start: usize = *pos;
    let mut acc: u128 = 0;
    let mut k: usize = 0;
    proof {
        lemma_pow256_16();
        lemma_pow256_mono(0, 16);
    }
    while k < n
        invariant
            k <= n,
            n <= 16,
            start + n <= buf@.len(),
            buf@.len() <= usize::MAX,
            *pos == start + k,
            acc == spec_be_value(buf@, start as int, k as nat),
            acc < pow256(k as nat),
            pow256(16) == 0x1_0000_0000_0000_0000_0000_0000_0000_0000,
        decreases n - k,
    {
        let byte: u8 = buf[*pos];
        proof {
            lemma_pow256_mono((k + 1) as nat, 16);
            assert(256 * pow256(k as nat) == pow256((k + 1) as nat));
        }
        acc = acc * 256 + (byte as u128);
        *pos += 1;
        k += 1;
    }
    Ok(acc)
}

proof fn lemma_pow256_pos(n: nat)
    ensures
        pow256(n) >= 1,
    decreases n,
{
    if n > 0 {
        lemma_pow256_pos((n - 1) as nat);
    }
}

proof fn lemma_pow256_mono(a: nat, b: nat)
    requires
        a <= b,
    ensures
        pow256(a) <= pow256(b),
        pow256(a) >= 1,
    decreases b,
{
    lemma_pow256_pos(a);
    if a < b {
        lemma_pow256_mono(a, (b - 1) as nat);
        assert(pow256(b) == 256 * pow256((b - 1) as nat));
    }
}

/// Every byte contributes less than 256, so an `n`-byte value is below
/// `pow256(n)`.
pub proof fn lemma_be_value_bound(b: Seq<u8>, i: int, n: nat)
    ensures
        spec_be_value(b, i, n) < pow256(n),
    decreases n,
{
    if n > 0 {
        lemma_be_value_bound(b, i, (n - 1) as nat);
    }
}

/// Append the `n`-byte big-endian image of `v`, `n` at most 16.
pub fn write_be(out: &mut Vec<u8>, v: u128, n: usize)
    requires
        n <= 16,
        v < pow256(n as nat),
    ensures
        final(out)@ == old(out)@ + spec_be_bytes(v as nat, n as nat),
    decreases n,
{
    if n == 0 {
        assert(final(out)@ =~= old(out)@ + spec_be_bytes(v as nat, 0));
    } else {
        proof {
            lemma_div_bound(v as nat, pow256((n - 1) as nat));
        }
        write_be(out, v / 256, n - 1);
        out.push((v % 256) as u8);
        assert(final(out)@ =~= old(out)@ + spec_be_bytes(v as nat, n as nat));
    }
}

// ---------------------------------------------------------------------
// Typed fixed-width fields
// ---------------------------------------------------------------------

/// The byte at offset `i`, if it is there.
pub open spec fn spec_parse_u8(b: Seq<u8>, i: int) -> Option<(u8, int)> {
    if 0 <= i && i + 1 <= b.len() {
        Some((b[i], i + 1))
    } else {
        None
    }
}

/// The byte at offset `i` read as a flag: set when non-zero.
pub open spec fn spec_parse_bool(b: Seq<u8>, i: int) -> Option<(bool, int)> {
    if 0 <= i && i + 1 <= b.len() {
        Some((b[i] != 0, i + 1))
    } else {
        None
    }
}

/// The big-endian `u16` at offset `i`, if two bytes are there.
pub open spec fn spec_parse_u16(b: Seq<u8>, i: int) -> Option<(u16, int)> {
    if 0 <= i && i + 2 <= b.len() {
        Some((spec_be_value(b, i, 2) as u16, i + 2))
    } else {
        None
    }
}

/// The big-endian `u64` at offset `i`, if eight bytes are there.
pub open spec fn spec_parse_u64(b: Seq<u8>, i: int) -> Option<(u64, int)> {
    if 0 <= i && i + 8 <= b.len() {
        Some((spec_be_value(b, i, 8) as u64, i + 8))
    } else {
        None
    }
}

/// The big-endian `u128` at offset `i`, if sixteen bytes are there.
pub open spec fn spec_parse_u128(b: Seq<u8>, i: int) -> Option<(u128, int)> {
    if 0 <= i && i + 16 <= b.len() {
        Some((spec_be_value(b, i, 16) as u128, i + 16))
    } else {
        None
    }
}

/// The big-endian `u32` image at offset `i`, if four bytes are there.
pub open spec fn spec_parse_u32(b: Seq<u8>, i: int) -> Option<(u32, int)> {
    if 0 <= i && i + 4 <= b.len() {
        Some((spec_be_value(b, i, 4) as u32, i + 4))
    } else {
        None
    }
}

pub fn read_u8(buf: &Vec<u8>, pos: &mut usize) -> (r: Result<u8, DecodeError>)
    requires
        *old(pos) <= buf@.len(),
    ensures
        *final(pos) <= buf@.len(),
        *old(pos) <= *final(pos),
        match spec_parse_u8(buf@, *old(pos) as int) {
            Some((v, j)) => r == Ok::<u8, DecodeError>(v) && *final(pos) == j,
            None => r is Err && *final(pos) == *old(pos),
        },
{
    if *pos >= buf.len() {
        return Err(DecodeError::ShortFrame);
    }
    let b: u8 = buf[*pos];
    *pos += 1;
    Ok(b)
}

pub fn read_bool(buf: &Vec<u8>, pos: &mut usize) -> (r: Result<bool, DecodeError>)
    requires
        *old(pos) <= buf@.len(),
    ensures
        *final(pos) <= buf@.len(),
        *old(pos) <= *final(pos),
        match spec_parse_bool(buf@, *old(pos) as int) {
            Some((v, j)) => r == Ok::<bool, DecodeError>(v) && *final(pos) == j,
            None => r is Err && *final(pos) == *old(pos),
        },
{
    match read_u8(buf, pos) {
        Ok(b) => Ok(b > 0),
        Err(e) => Err(e),
    }
}

pub fn read_u16(buf: &Vec<u8>, pos: &mut usize) -> (r: Result<u16, DecodeError>)
    requires
        *old(pos) <= buf@.len(),
    ensures
        *final(pos) <= buf@.len(),
        *old(pos) <= *final(pos),
        match spec_parse_u16(buf@, *old(pos) as int) {
            Some((v, j)) => r == Ok::<u16, DecodeError>(v) && *final(pos) == j,
            None => r is Err && *final(pos) == *old(pos),
        },
{
    proof {
        lemma_pow256_16();
        lemma_be_value_bound(buf@, *old(pos) as int, 2);
    }
    match read_be(buf, pos, 2) {
        Ok(v) => Ok(v as u16),
        Err(e) => Err(e),
    }
}

pub fn read_i16(buf: &Vec<u8>, pos: &mut usize) -> (r: Result<i16, DecodeError>)
    requires
        *old(pos) <= buf@.len(),
    ensures
        *final(pos) <= buf@.len(),
        *old(pos) <= *final(pos),
        match spec_parse_u16(buf@, *old(pos) as int) {
            Some((v, j)) => r == Ok::<i16, DecodeError>(v as i16) && *final(pos) == j,
            None => r is Err && *final(pos) == *old(pos),
        },
{
    match read_u16(buf, pos) {
        Ok(v) => Ok(v as i16),
        Err(e) => Err(e),
    }
}

pub fn read_u32(buf: &Vec<u8>, pos: &mut usize) -> (r: Result<u32, DecodeError>)
    requires
        *old(pos) <= buf@.len(),
    ensures
        *final(pos) <= buf@.len(),
        *old(pos) <= *final(pos),
        match spec_parse_u32(buf@, *old(pos) as int) {
            Some((v, j)) => r == Ok::<u32, DecodeError>(v) && *final(pos) == j,
            None => r is Err && *final(pos) == *old(pos),
        },
{
    proof {
        lemma_pow256_16();
        lemma_be_value_bound(buf@, *old(pos) as int, 4);
    }
    match read_be(buf, pos, 4) {
        Ok(v) => Ok(v as u32),
        Err(e) => Err(e),
    }
}

pub fn read_i32(buf: &Vec<u8>, pos: &mut usize) -> (r: Result<i32, DecodeError>)
    requires
        *old(pos) <= buf@.len(),
    ensures
        *final(pos) <= buf@.len(),
        *old(pos) <= *final(pos),
        match spec_parse_u32(buf@, *old(pos) as int) {
            Some((v, j)) => r == Ok::<i32, DecodeError>(v as i32) && *final(pos) == j,
            None => r is Err && *final(pos) == *old(pos),
        },
{
    match read_u32(buf, pos) {
        Ok(v) => Ok(v as i32),
        Err(e) => Err(e),
    }
}

pub fn read_u64(buf: &Vec<u8>, pos: &mut usize) -> (r: Result<u64, DecodeError>)
    requires
        *old(pos) <= buf@.len(),
    ensures
        *final(pos) <= buf@.len(),
        *old(pos) <= *final(pos),
        match spec_parse_u64(buf@, *old(pos) as int) {
            Some((v, j)) => r == Ok::<u64, DecodeError>(v) && *final(pos) == j,
            None => r is Err && *final(pos) == *old(pos),
        },
{
    proof {
        lemma_pow256_16();
        lemma_be_value_bound(buf@, *old(pos) as int, 8);
    }
    match read_be(buf, pos, 8) {
        Ok(v) => Ok(v as u64),
        Err(e) => Err(e),
    }
}

pub fn read_i64(buf: &Vec<u8>, pos: &mut usize) -> (r: Result<i64, DecodeError>)
    requires
        *old(pos) <= buf@.len(),
    ensures
        *final(pos) <= buf@.len(),
        *old(pos) <= *final(pos),
        match spec_parse_u64(buf@, *old(pos) as int) {
            Some((v, j)) => r == Ok::<i64, DecodeError>(v as i64) && *final(pos) == j,
            None => r is Err && *final(pos) == *old(pos),
        },
{
    match read_u64(buf, pos) {
        Ok(v) => Ok(v as i64),
        Err(e) => Err(e),
    }
}

pub fn read_u128(buf: &Vec<u8>, pos: &mut usize) -> (r: Result<u128, DecodeError>)
    requires
        *old(pos) <= buf@.len(),
    ensures
        *final(pos) <= buf@.len(),
        *old(pos) <= *final(pos),
        match spec_parse_u128(buf@, *old(pos) as int) {
            Some((v, j)) => r == Ok::<u128, DecodeError>(v) && *final(pos) == j,
            None => r is Err && *final(pos) == *old(pos),
        },
{
    proof {
        lemma_pow256_16();
        lemma_be_value_bound(buf@, *old(pos) as int, 16);
    }
    read_be(buf, pos, 16)
}

pub fn write_u8(out: &mut Vec<u8>, v: u8)
    ensures
        final(out)@ == old(out)@ + seq![v],
{
    out.push(v);
    assert(final(out)@ =~= old(out)@ + seq![v]);
}

pub fn write_bool(out: &mut Vec<u8>, v: bool)
    ensures
        final(out)@ == old(out)@ + seq![(if v { 1u8 } else { 0u8 })],
{
    write_u8(out, if v { 1 } else { 0 });
}

pub fn write_u16(out: &mut Vec<u8>, v: u16)
    ensures
        final(out)@ == old(out)@ + spec_be_bytes(v as nat, 2),
{
    proof {
        lemma_pow256_16();
    }
    write_be(out, v as u128, 2);
}

pub fn write_i16(out: &mut Vec<u8>, v: i16)
    ensures
        final(out)@ == old(out)@ + spec_be_bytes((v as u16) as nat, 2),
{
    write_u16(out, v as u16);
}

pub fn write_u32(out: &mut Vec<u8>, v: u32)
    ensures
        final(out)@ == old(out)@ + spec_be_bytes(v as nat, 4),
{
    proof {
        lemma_pow256_16();
    }
    write_be(out, v as u128, 4);
}

pub fn write_i32(out: &mut Vec<u8>, v: i32)
    ensures
        final(out)@ == old(out)@ + spec_be_bytes((v as u32) as nat, 4),
{
    write_u32(out, v as u32);
}

pub fn write_u64(out: &mut Vec<u8>, v: u64)
    ensures
        final(out)@ == old(out)@ + spec_be_bytes(v as nat, 8),
{
    proof {
        lemma_pow256_16();
    }
    write_be(out, v as u128, 8);
}

pub fn write_i64(out: &mut Vec<u8>, v: i64)
    ensures
        final(out)@ == old(out)@ + spec_be_bytes((v as u64) as nat, 8),
{
    write_u64(out, v as u64);
}

pub fn write_u128(out: &mut Vec<u8>, v: u128)
    ensures
        final(out)@ == old(out)@ + spec_be_bytes(v as nat, 16),
{
    proof {
        lemma_pow256_16();
    }
    write_be(out, v, 16);
}

/// A `u16` field survives its round trip.
pub proof fn lemma_parse_u16_emit(b: Seq<u8>, i: int, v: u16)
    requires
        0 <= i,
        i + 2 <= b.len(),
        b.subrange(i, i + 2) == spec_be_bytes(v as nat, 2),
    ensures
        spec_parse_u16(b, i) == Some::<(u16, int)>((v, i + 2)),
{
    lemma_pow256_16();
    lemma_be_round_trip(b, i, v as nat, 2);
}

/// A `u32` field survives its round trip.
pub proof fn lemma_parse_u32_emit(b: Seq<u8>, i: int, v: u32)
    requires
        0 <= i,
        i + 4 <= b.len(),
        b.subrange(i, i + 4) == spec_be_bytes(v as nat, 4),
    ensures
        spec_parse_u32(b, i) == Some::<(u32, int)>((v, i + 4)),
{
    lemma_pow256_16();
    lemma_be_round_trip(b, i, v as nat, 4);
}

/// A `u64` field survives its round trip.
pub proof fn lemma_parse_u64_emit(b: Seq<u8>, i: int, v: u64)
    requires
        0 <= i,
        i + 8 <= b.len(),
        b.subrange(i, i + 8) == spec_be_bytes(v as nat, 8),
    ensures
        spec_parse_u64(b, i) == Some::<(u64, int)>((v, i + 8)),
{
    lemma_pow256_16();
    lemma_be_round_trip(b, i, v as nat, 8);
}

// ---------------------------------------------------------------------
// Length-prefixed strings and blobs
// ---------------------------------------------------------------------

/// Whether a byte sequence is well-formed UTF-8.  The exact shape of
/// the predicate is left to the standard library's validator; the
/// trusted `check_utf8` below ties this name to it.
pub uninterp spec fn utf8_ok(b: Seq<u8>) -> bool;

/// Relies on std::str::from_utf8: whether the bytes are well-formed
/// UTF-8 depends on the bytes alone.
#[verifier::external_body]
pub fn check_utf8(b: &Vec<u8>) -> (r: bool)
    ensures
        r == utf8_ok(b@),
{
    std::str::from_utf8(b.as_slice()).is_ok()
}

/// A length-prefixed string: a variable-length byte count followed by
/// that many bytes of UTF-8.  A negative count, missing bytes, or
/// ill-formed UTF-8 is a decode failure.
pub open spec fn spec_parse_string(b: Seq<u8>, i: int) -> Option<(Seq<u8>, int)> {
    match spec_parse_varint(b, i, 5) {
        Some((lu, j)) => {
            if (lu as i32) < 0 {
                None
            } else {
                let len = (lu as i32) as int;
                if j + len <= b.len() {
                    if utf8_ok(b.subrange(j, j + len)) {
                        Some((b.subrange(j, j + len), j + len))
                    } else {
                        None
                    }
                } else {
                    None
                }
            }
        },
        None => None,
    }
}

/// A length-prefixed blob: as a string, but the bytes stay opaque.
pub open spec fn spec_parse_blob(b: Seq<u8>, i: int) -> Option<(Seq<u8>, int)> {
    match spec_parse_varint(b, i, 5) {
        Some((lu, j)) => {
            if (lu as i32) < 0 {
                None
            } else {
                let len = (lu as i32) as int;
                if j + len <= b.len() {
                    Some((b.subrange(j, j + len), j + len))
                } else {
                    None
                }
            }
        },
        None => None,
    }
}

/// Copy `buf[a..b]` into a fresh vector.
pub fn copy_range(src: &Vec<u8>, a: usize, b: usize) -> (r: Vec<u8>)
    requires
        a <= b,
        b <= src@.len(),
    ensures
        r@ == src@.subrange(a as int, b as int),
{
    let mut r: Vec<u8> = Vec::new();
    let mut k: usize = a;
    while k < b
        invariant
            a <= k <= b,
            b <= src@.len(),
            r@ == src@.subrange(a as int, k as int),
        decreases b - k,
    {
        r.push(src[k]);
        k += 1;
        assert(r@ =~= src@.subrange(a as int, k as int));
    }
    r
}

pub fn read_string(buf: &Vec<u8>, pos: &mut usize) -> (r: Result<Vec<u8>, DecodeError>)
    requires
        *old(pos) <= buf@.len(),
    ensures
        *final(pos) <= buf@.len(),
        *old(pos) <= *final(pos),
        match spec_parse_string(buf@, *old(pos) as int) {
            Some((s, j)) => r matches Ok(v) && v@ == s && *final(pos) == j,
            None => r is Err,
        },
{
    let lu = match read_varint_u32(buf, pos) {
        Ok(lu) => lu,
        Err(e) => { return Err(e) },
    };
    let len_i = lu as i32;
    if len_i < 0 {
        return Err(DecodeError::BadShape);
    }
    let len = len_i as usize;
    if buf.len() - *pos < len {
        return Err(DecodeError::ShortFrame);
    }
    let bytes = copy_range(buf, *pos, *pos + len);
    if !check_utf8(&bytes) {
        return Err(DecodeError::BadUtf8);
    }
    *pos += len;
    Ok(bytes)
}

pub fn read_blob(buf: &Vec<u8>, pos: &mut usize) -> (r: Result<Vec<u8>, DecodeError>)
    requires
        *old(pos) <= buf@.len(),
    ensures
        *final(pos) <= buf@.len(),
        *old(pos) <= *final(pos),
        match spec_parse_blob(buf@, *old(pos) as int) {
            Some((s, j)) => r matches Ok(v) && v@ == s && *final(pos) == j,
            None => r is Err,
        },
{
    let lu = match read_varint_u32(buf, pos) {
        Ok(lu) => lu,
        Err(e) => { return Err(e) },
    };
    let len_i = lu as i32;
    if len_i < 0 {
        return Err(DecodeError::BadShape);
    }
    let len = len_i as usize;
    if buf.len() - *pos < len {
        return Err(DecodeError::ShortFrame);
    }
    let bytes = copy_range(buf, *pos, *pos + len);
    *pos += len;
    Ok(bytes)
}

/// The emitted form of a length-prefixed string or blob.
pub open spec fn spec_emit_string(s: Seq<u8>) -> Seq<u8> {
    spec_emit_varint(s.len() as u32) + s
}

pub fn write_string(out: &mut Vec<u8>, s: &Vec<u8>)
    requires
        s@.len() <= 0x7fff_ffff,
    ensures
        final(out)@ == old(out)@ + spec_emit_string(s@),
{
    write_varint_u32(out, s.len() as u32);
    let mut k: usize = 0;
    let ghost mid = out@;
    while k < s.len()
        invariant
            k <= s@.len(),
            out@ == mid + s@.subrange(0, k as int),
        decreases s@.len() - k,
    {
        out.push(s[k]);
        k += 1;
        assert(out@ =~= mid + s@.subrange(0, k as int));
    }
    assert(out@ =~= mid + s@);
    assert(final(out)@ =~= old(out)@ + spec_emit_string(s@));
}

/// A valid length-prefixed string survives its round trip: parsing the
/// emitted form yields the same bytes.
pub proof fn lemma_string_round_trip(b: Seq<u8>, i: int, s: Seq<u8>)
    requires
        0 <= i,
        s.len() <= 0x7fff_ffff,
        utf8_ok(s),
        i + spec_emit_string(s).len() <= b.len(),
        b.subrange(i, i + spec_emit_string(s).len() as int) == spec_emit_string(s),
    ensures
        spec_parse_string(b, i) == Some::<(Seq<u8>, int)>(
            (s, i + spec_emit_string(s).len() as int),
        ),
{
    let lu = s.len() as u32;
    let pre = spec_emit_varint(lu);
    let e = spec_emit_string(s);
    lemma_emit_varint_len(lu);
    assert(b.subrange(i, i + pre.len() as int) =~= e.subrange(0, pre.len() as int));
    assert(e.subrange(0, pre.len() as int) =~= pre);
    lemma_parse_varint_emit(b, i, lu, 5);
    let j = i + pre.len() as int;
    assert(lu as i32 >= 0);
    assert((lu as i32) as int == s.len() as int);
    assert(b.subrange(j, j + s.len() as int) =~= e.subrange(
        pre.len() as int,
        pre.len() + s.len() as int,
    ));
    assert(e.subrange(pre.len() as int, pre.len() + s.len() as int) =~= s);
}

/// A variable-length integer survives its round trip.
pub proof fn lemma_varint_round_trip(v: i32)
    ensures
        spec_parse_varint(spec_emit_varint(v as u32), 0, 5) == Some::<(u32, int)>(
            (v as u32, spec_emit_varint(v as u32).len() as int),
        ),
        (v as u32) as i32 == v,
{
    let e = spec_emit_varint(v as u32);
    lemma_emit_varint_len(v as u32);
    assert(e.subrange(0, e.len() as int) =~= e);
    lemma_parse_varint_emit(e, 0, v as u32, 5);
    assert((v as u32) as i32 == v) by (bit_vector);
}

// ---------------------------------------------------------------------
// Frame length prefixes
// ---------------------------------------------------------------------

/// Read a frame length prefix from the head of a buffer.
pub fn decode_length(buf: &Vec<u8>, pos: &mut usize) -> (r: Result<usize, DecodeError>)
    requires
        *old(pos) <= buf@.len(),
    ensures
        *final(pos) <= buf@.len(),
        *old(pos) <= *final(pos),
        match spec_parse_varint(buf@, *old(pos) as int, 5) {
            Some((v, j)) => r == Ok::<usize, DecodeError>(v as usize) && *final(pos) == j,
            None => r is Err,
        },
{
    match read_varint_u32(buf, pos) {
        Ok(v) => Ok(v as usize),
        Err(e) => Err(e),
    }
}

/// Attempt to read a frame length prefix from the head of a buffer that
/// may still be filling: on success, the length and the bytes its
/// prefix used; on failure, how many bytes were examined.
pub fn try_decode_length(buf: &Vec<u8>) -> (r: (Option<usize>, usize))
    ensures
        match spec_parse_varint(buf@, 0, 5) {
            Some((v, j)) => r.0 == Some(v as usize) && r.1 == j,
            None => r.0 is None,
        },
{
    let mut pos: usize = 0;
    match read_varint_u32(buf, &mut pos) {
        Ok(v) => (Some(v as usize), pos),
        Err(_) => (None, pos),
    }
}

/// Split one complete frame off the front of an incoming buffer.
///
/// Returns the frame body when the buffer holds a full length prefix
/// and that many more bytes, leaving the remainder in the buffer;
/// `None` when the frame is still incomplete, leaving the buffer
/// untouched; an error when the length prefix itself is malformed
/// (five bytes with the continuation bit still set).
pub fn extract_frame(buf: &mut Vec<u8>) -> (r: Result<Option<Vec<u8>>, DecodeError>)
    ensures
        match spec_parse_varint(old(buf)@, 0, 5) {
            Some((lu, j)) => {
                if j + lu <= old(buf)@.len() {
                    r matches Ok(Some(f)) && f@ == old(buf)@.subrange(j, j + lu) && final(buf)@
                        == old(buf)@.subrange(j + lu, old(buf)@.len() as int)
                } else {
                    r == Ok::<Option<Vec<u8>>, DecodeError>(None) && final(buf)@ == old(buf)@
                }
            },
            None => {
                if old(buf)@.len() >= 5 {
                    r is Err && final(buf)@ == old(buf)@
                } else {
                    r == Ok::<Option<Vec<u8>>, DecodeError>(None) && final(buf)@ == old(buf)@
                }
            },
        },
{
    let mut pos: usize = 0;
    match read_varint_u32(buf, &mut pos) {
        Ok(lu) => {
            let len = lu as usize;
            if buf.len() - pos >= len {
                let f = copy_range(buf, pos, pos + len);
                let rest = copy_range(buf, pos + len, buf.len());
                *buf = rest;
                Ok(Some(f))
            } else {
                Ok(None)
            }
        },
        Err(e) => {
            if buf.len() >= 5 {
                Err(e)
            } else {
                Ok(None)
            }
        },
    }
}

/// Prefix a payload with its length, producing one outbound frame.
pub fn frame_packet(payload: &Vec<u8>) -> (r: Vec<u8>)
    requires
        payload@.len() <= 0x7fff_ffff,
    ensures
        r@ == spec_emit_varint(payload@.len() as u32) + payload@,
{
    let mut out: Vec<u8> = Vec::new();
    write_varint_u32(&mut out, payload.len() as u32);
    let ghost mid = out@;
    let mut k: usize = 0;
    while k < payload.len()
        invariant
            k <= payload@.len(),
            out@ == mid + payload@.subrange(0, k as int),
        decreases payload@.len() - k,
    {
        out.push(payload[k]);
        k += 1;
        assert(out@ =~= mid + payload@.subrange(0, k as int));
    }
    assert(out@ =~= spec_emit_varint(payload@.len() as u32) + payload@);
    out
}

/// A fresh vector holding the same bytes.
pub fn clone_bytes(src: &Vec<u8>) -> (r: Vec<u8>)
    ensures
        r@ == src@,
{
    let r = copy_range(src, 0, src.len());
    proof {
        assert(r@ =~= src@);
    }
    r
}

/// Whether two byte vectors hold the same bytes.
pub fn bytes_eq(a: &Vec<u8>, b: &Vec<u8>) -> (r: bool)
    ensures
        r == (a@ == b@),
{
    if a.len() != b.len() {
        assert(a@.len() != b@.len());
        return false;
    }
    let mut k: usize = 0;
    while k < a.len()
        invariant
            k <= a@.len(),
            a@.len() == b@.len(),
            forall|m: int| 0 <= m < k ==> a@[m] == b@[m],
        decreases a@.len() - k,
    {
        if a[k] != b[k] {
            return false;
        }
        k += 1;
    }
    proof {
        assert(a@ =~= b@);
    }
    true
}

} // verus!
