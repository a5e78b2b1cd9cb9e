use minebot::blocks::BlockState;
use minebot::geom::{
    chunk_addr, from_local_index, local_addr, manhattan_distance, to_global_coords, to_local_index,
    BlockPosition, ChunkAddr, LocalAddr,
};

#[test]
fn floored_chunk_addressing_for_negative_coordinates() {
    let a = chunk_addr(BlockPosition::new(-1, 0, -1));
    assert_eq!((a.x, a.z), (-1, -1));
}

#[test]
fn floored_chunk_math_example() {
    let a = chunk_addr(BlockPosition::new(-17, 0, 31));
    assert_eq!((a.x, a.z), (-2, 1));
    let l = local_addr(BlockPosition::new(-17, 65, 31));
    assert_eq!((l.x, l.y, l.z), (15, 65, 15));
}

#[test]
fn positive_chunk_addressing() {
    let a = chunk_addr(BlockPosition::new(33, 70, 15));
    assert_eq!((a.x, a.z), (2, 0));
    let l = local_addr(BlockPosition::new(33, 70, 15));
    assert_eq!((l.x, l.y, l.z), (1, 70, 15));
}

#[test]
fn global_coords_round_trip() {
    let c = ChunkAddr::new(-2, 1);
    let l = LocalAddr::new(15, 65, 15);
    let g = to_global_coords(c, l);
    assert_eq!((g.x, g.y, g.z), (-17, 65, 31));
    let c2 = chunk_addr(g);
    assert_eq!((c2.x, c2.z), (-2, 1));
    let l2 = local_addr(g);
    assert_eq!((l2.x, l2.y, l2.z), (15, 65, 15));
}

#[test]
fn local_index_layout() {
    let l = LocalAddr::new(3, 17, 5);
    let idx = to_local_index(l);
    assert_eq!(idx, 3 | (5 << 4) | (17 << 8));
    let back = from_local_index(idx);
    assert_eq!((back.x, back.y, back.z), (3, 17, 5));
}

#[test]
fn local_index_round_trips_everywhere() {
    for idx in [0u16, 1, 15, 16, 255, 256, 4095, 65535] {
        assert_eq!(to_local_index(from_local_index(idx)), idx);
    }
}

#[test]
fn manhattan_distance_sums_absolute_differences() {
    let a = BlockPosition::new(1, 2, 3);
    let b = BlockPosition::new(-2, 4, 3);
    assert_eq!(manhattan_distance(a, b), 5);
    assert_eq!(manhattan_distance(b, a), 5);
    assert_eq!(manhattan_distance(a, a), 0);
}

#[test]
fn block_state_id_is_upper_twelve_bits() {
    for packed in [0u16, 1, 15, 16, 17, 0x1234, 0xFFFF] {
        let bs = BlockState(packed);
        assert_eq!(bs.id(), packed >> 4);
        assert_eq!(bs.meta(), (packed & 0x0F) as u8);
    }
}

#[test]
fn passability_covers_air_and_plant_sentinels() {
    assert!(BlockState(0).is_passable()); // air
    assert!(BlockState(31 << 4).is_passable()); // tall grass
    assert!(BlockState(32 << 4).is_passable()); // flower
    assert!(BlockState((31 << 4) | 7).is_passable()); // metadata is ignored
    assert!(!BlockState(1 << 4).is_passable()); // stone
    assert!(!BlockState(30 << 4).is_passable());
    assert!(!BlockState(33 << 4).is_passable());
}
