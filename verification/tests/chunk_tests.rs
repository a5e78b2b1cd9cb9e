use minebot::blocks::BlockState;
use minebot::chunk::{load_single_chunk, Chunk};
use minebot::geom::{from_local_index, LocalAddr};
use minebot::wire::write_varint_i32;

/// Pack 4096 indices of `bpb` bits each, least significant first,
/// into big-endian 64-bit words, exactly as the wire carries them.
fn pack_indices(indices: &[u16], bpb: u32) -> Vec<u8> {
    assert_eq!(indices.len(), 4096);
    let nwords = (4096 * bpb as usize + 63) / 64;
    let mut words = vec![0u64; nwords];
    for (i, &idx) in indices.iter().enumerate() {
        let o = i * bpb as usize;
        let w = o / 64;
        let r = o % 64;
        words[w] |= (idx as u64) << r;
        if r + bpb as usize > 64 {
            words[w + 1] |= (idx as u64) >> (64 - r);
        }
    }
    let mut out = Vec::new();
    for w in words {
        out.extend_from_slice(&w.to_be_bytes());
    }
    out
}

fn section_payload(bpb: u8, palette: Option<&[u16]>, indices: &[u16]) -> Vec<u8> {
    let mut out = Vec::new();
    out.push(bpb);
    if let Some(p) = palette {
        write_varint_i32(&mut out, p.len() as i32);
        for &e in p {
            write_varint_i32(&mut out, e as i32);
        }
    }
    write_varint_i32(&mut out, 0); // on-wire byte length, discarded
    out.extend_from_slice(&pack_indices(indices, bpb as u32));
    for i in 0..2048u32 {
        out.push((i % 251) as u8); // block light nibbles
    }
    for i in 0..2048u32 {
        out.push((i % 253) as u8); // skylight nibbles
    }
    out
}

fn unpack_round_trip_with_palette(bpb: u8, palette: &[u16]) {
    let indices: Vec<u16> = (0..4096u32).map(|i| (i % palette.len() as u32) as u16).collect();
    let payload = section_payload(bpb, Some(palette), &indices);
    let mut chunk = Chunk::new();
    let mut pos = 0usize;
    load_single_chunk(&mut chunk, 0, &payload, &mut pos).expect("section unpacks");
    assert_eq!(pos, payload.len());
    for i in 0..4096u16 {
        let addr = from_local_index(i);
        let expect = palette[(i as usize) % palette.len()];
        assert_eq!(chunk.block_state(addr), BlockState(expect), "address {i}");
    }
}

#[test]
fn unpack_reproduces_indices_at_4_bits() {
    let palette: Vec<u16> = (0..16u16).map(|i| i * 16).collect();
    unpack_round_trip_with_palette(4, &palette);
}

#[test]
fn unpack_reproduces_indices_at_5_bits() {
    let palette: Vec<u16> = (0..32u16).map(|i| i * 16 + 3).collect();
    unpack_round_trip_with_palette(5, &palette);
}

#[test]
fn unpack_reproduces_indices_at_8_bits() {
    let palette: Vec<u16> = (0..200u16).map(|i| i * 13).collect();
    unpack_round_trip_with_palette(8, &palette);
}

#[test]
fn unpack_reproduces_indices_at_13_bits_direct() {
    let indices: Vec<u16> = (0..4096u32).map(|i| ((i * 7) % 8192) as u16).collect();
    let payload = section_payload(13, None, &indices);
    let mut chunk = Chunk::new();
    let mut pos = 0usize;
    load_single_chunk(&mut chunk, 0, &payload, &mut pos).expect("section unpacks");
    for i in 0..4096u16 {
        let addr = from_local_index(i);
        let expect = ((i as u32 * 7) % 8192) as u16;
        assert_eq!(chunk.block_state(addr), BlockState(expect), "address {i}");
    }
}

#[test]
fn unpack_splits_light_nibbles_low_first() {
    let indices = vec![0u16; 4096];
    let payload = section_payload(4, Some(&[0u16]), &indices);
    let mut chunk = Chunk::new();
    let mut pos = 0usize;
    load_single_chunk(&mut chunk, 0, &payload, &mut pos).expect("section unpacks");
    // light byte 0 is 0 % 251 == 0; byte 1 is 1: low nibble 1, high 0
    assert_eq!(chunk.light_level(from_local_index(2)), 1);
    assert_eq!(chunk.light_level(from_local_index(3)), 0);
    // byte 17 is 17: low nibble 1, high 1
    assert_eq!(chunk.light_level(from_local_index(34)), 1);
    assert_eq!(chunk.light_level(from_local_index(35)), 1);
}

#[test]
fn unpack_rejects_palette_index_out_of_range() {
    let mut indices = vec![0u16; 4096];
    indices[100] = 3; // palette has two entries
    let payload = section_payload(4, Some(&[0u16, 16u16]), &indices);
    let mut chunk = Chunk::new();
    let mut pos = 0usize;
    assert!(load_single_chunk(&mut chunk, 0, &payload, &mut pos).is_err());
}

#[test]
fn unpack_rejects_zero_bits_per_block() {
    let payload = vec![0u8];
    let mut chunk = Chunk::new();
    let mut pos = 0usize;
    assert!(load_single_chunk(&mut chunk, 0, &payload, &mut pos).is_err());
}

#[test]
fn unpack_rejects_truncated_payload() {
    let indices = vec![0u16; 4096];
    let mut payload = section_payload(4, Some(&[0u16]), &indices);
    payload.truncate(payload.len() - 100);
    let mut chunk = Chunk::new();
    let mut pos = 0usize;
    assert!(load_single_chunk(&mut chunk, 0, &payload, &mut pos).is_err());
}

#[test]
fn fresh_chunk_has_documented_defaults() {
    let chunk = Chunk::new();
    let addr = LocalAddr::new(5, 100, 7);
    assert_eq!(chunk.block_state(addr), BlockState(0));
    assert_eq!(chunk.damage(addr), 0);
    assert_eq!(chunk.light_level(addr), 0);
    assert_eq!(chunk.skylight_level(addr), 15);
}

#[test]
fn chunk_setters_round_trip() {
    let mut chunk = Chunk::new();
    let addr = LocalAddr::new(1, 2, 3);
    chunk.set_block_state(addr, BlockState(0x123));
    chunk.set_damage(addr, 7);
    chunk.set_light_level(addr, 9);
    chunk.set_skylight_level(addr, 4);
    assert_eq!(chunk.block_state(addr), BlockState(0x123));
    assert_eq!(chunk.damage(addr), 7);
    assert_eq!(chunk.light_level(addr), 9);
    assert_eq!(chunk.skylight_level(addr), 4);
    // a neighbour keeps its defaults
    let other = LocalAddr::new(2, 2, 3);
    assert_eq!(chunk.block_state(other), BlockState(0));
}

#[test]
fn find_matching_block_state_lists_matches_in_address_order() {
    let mut chunk = Chunk::new();
    chunk.set_block_state(from_local_index(10), BlockState(16));
    chunk.set_block_state(from_local_index(5), BlockState(16));
    chunk.set_block_state(from_local_index(7), BlockState(32));
    let matches = chunk.find_matching_block_state(1);
    let idxs: Vec<u16> = matches.iter().map(|a| minebot::geom::to_local_index(*a)).collect();
    assert_eq!(idxs, vec![5, 10]);
}
