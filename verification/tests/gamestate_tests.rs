use minebot::blocks::BlockState;
use minebot::gamestate::{EntityAction, GameState};
use minebot::geom::BlockPosition;
use minebot::packets::{
    AddPlayer, MultiBlockChangeRecord, PlayerListPacket, RemovePlayer, ServerPacket,
};

fn fresh_state() -> GameState {
    GameState::new(1, b"bilbo".to_vec())
}

fn load_empty_chunk(gs: &mut GameState, cx: i32, cz: i32) {
    gs.load_chunk_data(cx, cz, 0, &Vec::new()).expect("empty chunk loads");
}

#[test]
fn block_change_dispatch_lands_at_unpacked_position() {
    let mut gs = fresh_state();
    load_empty_chunk(&mut gs, 0, 1); // z = 20 lives in chunk column (0, 1)
    let packed: u64 = (10u64 << 38) | (64u64 << 26) | 20u64;
    let acts = gs
        .handle_packet(&ServerPacket::BlockChange { position: packed, block_state: (1 << 4) | 0 })
        .expect("handles");
    assert!(acts.is_empty());
    let bs = gs.block_state_at(BlockPosition::new(10, 64, 20)).expect("chunk is loaded");
    assert_eq!(bs.id(), 1);
}

#[test]
fn block_change_sign_extends_negative_coordinates() {
    let mut gs = fresh_state();
    load_empty_chunk(&mut gs, -1, -1);
    let x = -3i64 as u64 & 0x3FF_FFFF;
    let z = -5i64 as u64 & 0x3FF_FFFF;
    let packed: u64 = (x << 38) | (70u64 << 26) | z;
    gs.handle_packet(&ServerPacket::BlockChange { position: packed, block_state: 32 })
        .expect("handles");
    let bs = gs.block_state_at(BlockPosition::new(-3, 70, -5)).expect("chunk is loaded");
    assert_eq!(bs, BlockState(32));
}

#[test]
fn last_block_write_wins_and_unloaded_reads_none() {
    let mut gs = fresh_state();
    load_empty_chunk(&mut gs, 0, 0);
    let packed: u64 = (3u64 << 38) | (64u64 << 26) | 4u64;
    for state in [16u16, 32, 48] {
        gs.handle_packet(&ServerPacket::BlockChange { position: packed, block_state: state })
            .expect("handles");
    }
    assert_eq!(gs.block_state_at(BlockPosition::new(3, 64, 4)), Some(BlockState(48)));
    // the neighbouring chunk is not loaded: reads are None, writes are dropped
    assert_eq!(gs.block_state_at(BlockPosition::new(300, 64, 4)), None);
    gs.set_block_state(BlockPosition::new(300, 64, 4), BlockState(16));
    assert_eq!(gs.block_state_at(BlockPosition::new(300, 64, 4)), None);
}

#[test]
fn multi_block_change_applies_each_record() {
    let mut gs = fresh_state();
    load_empty_chunk(&mut gs, 2, 3);
    let records = vec![
        MultiBlockChangeRecord { local_addr: 0x0000, block_state: 16 },
        MultiBlockChangeRecord { local_addr: 0x4001, block_state: 32 },
    ];
    gs.handle_packet(&ServerPacket::MultiBlockChange { chunk_x: 2, chunk_z: 3, records })
        .expect("handles");
    // local 0x0000 is (0, 0, 0); local 0x4001 is (1, 64, 0)
    assert_eq!(gs.block_state_at(BlockPosition::new(32, 0, 48)), Some(BlockState(16)));
    assert_eq!(gs.block_state_at(BlockPosition::new(33, 64, 48)), Some(BlockState(32)));
}

#[test]
fn unload_chunk_forgets_the_column() {
    let mut gs = fresh_state();
    load_empty_chunk(&mut gs, 0, 0);
    assert!(gs.block_state_at(BlockPosition::new(1, 1, 1)).is_some());
    gs.handle_packet(&ServerPacket::UnloadChunk { chunk_x: 0, chunk_z: 0 }).expect("handles");
    assert_eq!(gs.block_state_at(BlockPosition::new(1, 1, 1)), None);
}

#[test]
fn update_health_stores_raw_wire_fields() {
    let mut gs = fresh_state();
    let bits = (7.5f32).to_bits();
    gs.handle_packet(&ServerPacket::UpdateHealth { health: bits, food: 18, saturation: 0 })
        .expect("handles");
    assert_eq!(gs.health_bits(), bits);
    assert_eq!(gs.food_raw(), 18);
}

#[test]
fn join_game_binds_self_entity_and_creates_it() {
    let mut gs = fresh_state();
    assert_eq!(gs.my_entity_id(), None);
    let acts = gs
        .handle_packet(&ServerPacket::JoinGame {
            entity_id: 99,
            game_mode: minebot::packets::FullGameMode {
                mode: minebot::packets::GameMode::Survival,
                hardcore: false,
            },
            dimension: minebot::packets::DimensionId::Overworld,
            difficulty: minebot::packets::Difficulty::Normal,
            max_players: 20,
            level_type: b"default".to_vec(),
            reduced_debug_info: false,
        })
        .expect("handles");
    assert_eq!(acts, vec![EntityAction::Create { entity_id: 99 }]);
    assert_eq!(gs.my_entity_id(), Some(99));
}

#[test]
fn spawn_player_creates_and_places_the_entity() {
    let mut gs = fresh_state();
    gs.handle_packet(&ServerPacket::PlayerList {
        packet: PlayerListPacket::AddPlayers {
            players: vec![AddPlayer {
                uuid: 7,
                name: b"alice".to_vec(),
                properties: Vec::new(),
                game_mode: 0,
                ping: 0,
                display_name: None,
            }],
        },
    })
    .expect("handles");
    let acts = gs
        .handle_packet(&ServerPacket::SpawnPlayer {
            entity_id: 55,
            uuid: 7,
            x: (1.0f64).to_bits(),
            y: (65.0f64).to_bits(),
            z: (2.0f64).to_bits(),
            yaw: 0,
            pitch: 0,
        })
        .expect("handles");
    assert_eq!(
        acts,
        vec![
            EntityAction::Create { entity_id: 55 },
            EntityAction::SpawnAt {
                entity_id: 55,
                x: (1.0f64).to_bits(),
                y: (65.0f64).to_bits(),
                z: (2.0f64).to_bits(),
            },
        ]
    );
}

#[test]
fn player_list_add_and_remove_track_names() {
    let mut gs = fresh_state();
    assert_eq!(gs.player_names(), vec![b"bilbo".to_vec()]);
    gs.handle_packet(&ServerPacket::PlayerList {
        packet: PlayerListPacket::AddPlayers {
            players: vec![
                AddPlayer {
                    uuid: 7,
                    name: b"alice".to_vec(),
                    properties: Vec::new(),
                    game_mode: 0,
                    ping: 0,
                    display_name: None,
                },
                AddPlayer {
                    uuid: 8,
                    name: b"carol".to_vec(),
                    properties: Vec::new(),
                    game_mode: 0,
                    ping: 0,
                    display_name: None,
                },
            ],
        },
    })
    .expect("handles");
    assert_eq!(
        gs.player_names(),
        vec![b"bilbo".to_vec(), b"alice".to_vec(), b"carol".to_vec()]
    );
    assert_eq!(gs.player_name(7), Some(b"alice".to_vec()));
    gs.handle_packet(&ServerPacket::PlayerList {
        packet: PlayerListPacket::RemovePlayers { players: vec![RemovePlayer { uuid: 7 }] },
    })
    .expect("handles");
    assert_eq!(gs.player_names(), vec![b"bilbo".to_vec(), b"carol".to_vec()]);
    assert_eq!(gs.player_name(7), None);
    assert_eq!(gs.my_username(), Some(b"bilbo".to_vec()));
}

#[test]
fn removing_the_self_player_forgets_its_name() {
    let mut gs = fresh_state();
    assert_eq!(gs.my_username(), Some(b"bilbo".to_vec()));
    gs.handle_packet(&ServerPacket::PlayerList {
        packet: PlayerListPacket::RemovePlayers { players: vec![RemovePlayer { uuid: 1 }] },
    })
    .expect("handles");
    assert_eq!(gs.my_username(), None);
    assert_eq!(gs.player_names(), Vec::<Vec<u8>>::new());
}

#[test]
fn removing_an_unknown_player_changes_nothing() {
    let mut gs = fresh_state();
    gs.handle_packet(&ServerPacket::PlayerList {
        packet: PlayerListPacket::RemovePlayers { players: vec![RemovePlayer { uuid: 424242 }] },
    })
    .expect("handles");
    assert_eq!(gs.player_names(), vec![b"bilbo".to_vec()]);
}

#[test]
fn position_and_look_routes_all_fields_to_the_self_entity() {
    let mut gs = fresh_state();
    gs.handle_packet(&ServerPacket::JoinGame {
        entity_id: 9,
        game_mode: minebot::packets::FullGameMode {
            mode: minebot::packets::GameMode::Survival,
            hardcore: false,
        },
        dimension: minebot::packets::DimensionId::Overworld,
        difficulty: minebot::packets::Difficulty::Normal,
        max_players: 20,
        level_type: b"default".to_vec(),
        reduced_debug_info: false,
    })
    .expect("handles");
    let acts = gs
        .handle_packet(&ServerPacket::PlayerPositionAndLook {
            x: (1.0f64).to_bits(),
            y: (65.0f64).to_bits(),
            z: (2.0f64).to_bits(),
            yaw: (90.0f32).to_bits(),
            pitch: (-10.0f32).to_bits(),
            flags: 0b01001, // x and yaw are deltas
            teleport_id: 0,
        })
        .expect("handles");
    assert_eq!(
        acts,
        vec![EntityAction::ApplyPositionAndLook {
            entity_id: 9,
            x: (1.0f64).to_bits(),
            y: (65.0f64).to_bits(),
            z: (2.0f64).to_bits(),
            yaw: (90.0f32).to_bits(),
            pitch: (-10.0f32).to_bits(),
            flags: 0b01001,
        }]
    );
}

#[test]
fn entity_velocity_is_routed_to_the_embedder() {
    let mut gs = fresh_state();
    let acts = gs
        .handle_packet(&ServerPacket::EntityVelocity {
            entity_id: 5,
            velocity_x: 100,
            velocity_y: -200,
            velocity_z: 0,
        })
        .expect("handles");
    assert_eq!(
        acts,
        vec![EntityAction::SetVelocity {
            entity_id: 5,
            velocity_x: 100,
            velocity_y: -200,
            velocity_z: 0,
        }]
    );
}

#[test]
fn find_block_ids_within_sorts_nearest_first() {
    let mut gs = fresh_state();
    load_empty_chunk(&mut gs, 0, 0);
    for pos in [
        BlockPosition::new(5, 64, 5),
        BlockPosition::new(8, 64, 5),
        BlockPosition::new(5, 70, 5),
    ] {
        gs.set_block_state(pos, BlockState(16));
    }
    gs.set_block_state(BlockPosition::new(6, 64, 5), BlockState(32)); // different id
    let centre = BlockPosition::new(5, 65, 5);
    let found = gs.find_block_ids_within(1, centre, 10);
    assert_eq!(found.len(), 3);
    assert_eq!(found[0], BlockPosition::new(5, 64, 5)); // distance 1
    assert_eq!(found[1], BlockPosition::new(8, 64, 5)); // distance 10
    assert_eq!(found[2], BlockPosition::new(5, 70, 5)); // distance 25
}

#[test]
fn find_block_ids_respects_the_radius() {
    let mut gs = fresh_state();
    load_empty_chunk(&mut gs, 0, 0);
    gs.set_block_state(BlockPosition::new(0, 64, 0), BlockState(16));
    gs.set_block_state(BlockPosition::new(9, 64, 0), BlockState(16));
    let found = gs.find_block_ids_within(1, BlockPosition::new(0, 64, 0), 4);
    assert_eq!(found, vec![BlockPosition::new(0, 64, 0)]);
}

#[test]
fn path_over_a_flat_floor_steps_toward_the_target() {
    let mut gs = fresh_state();
    load_empty_chunk(&mut gs, 0, 0);
    for x in 0..10 {
        for z in 0..10 {
            gs.set_block_state(BlockPosition::new(x, 64, z), BlockState(16));
        }
    }
    let path = gs
        .find_path_to(BlockPosition::new(0, 65, 0), BlockPosition::new(3, 65, 0))
        .expect("path exists");
    assert_eq!(path[0], BlockPosition::new(0, 65, 0));
    // single-step moves with strictly growing x along the straight line,
    // ending adjacent-enough (Manhattan distance below two) to the target
    for w in path.windows(2) {
        let dx = w[1].x - w[0].x;
        let dy = w[1].y - w[0].y;
        let dz = w[1].z - w[0].z;
        assert_eq!(dx.abs() + dz.abs(), 1, "single cardinal step");
        assert_eq!(dy, 0);
        assert!(w[1].x >= w[0].x, "x never regresses");
    }
    let last = path[path.len() - 1];
    assert!((last.x - 3).abs() + (last.y - 65).abs() + (last.z - 0).abs() < 2);
    assert!(path.len() >= 3);
}

#[test]
fn no_path_through_unloaded_world() {
    let gs = fresh_state();
    assert!(gs
        .find_path_to(BlockPosition::new(0, 65, 0), BlockPosition::new(40, 65, 0))
        .is_none());
}
