use minebot::packets::{
    decode_client_login, decode_client_packet, decode_handshake, decode_server_login,
    decode_server_packet, encode_client_login, encode_client_packet, encode_handshake,
    ClientLoginPacket, ClientPacket, Difficulty, DimensionId, GameMode, HandshakePacket,
    PlayerListPacket, ServerLoginPacket, ServerPacket,
};
use minebot::wire::{write_i64, write_string, write_u16, write_u64, write_varint_i32, DecodeError};

fn client_round_trip(p: ClientPacket) {
    let bytes = encode_client_packet(&p);
    let back = decode_client_packet(&bytes).expect("decodes");
    assert_eq!(back, p);
}

#[test]
fn teleport_confirm_round_trips() {
    client_round_trip(ClientPacket::TeleportConfirm { teleport_id: 7 });
    client_round_trip(ClientPacket::TeleportConfirm { teleport_id: -1 });
}

#[test]
fn chat_message_round_trips() {
    client_round_trip(ClientPacket::ChatMessage { message: b"Hey! I'm a bot!".to_vec() });
    client_round_trip(ClientPacket::ChatMessage { message: Vec::new() });
}

#[test]
fn client_status_round_trips() {
    client_round_trip(ClientPacket::ClientStatus { action_id: 0 });
}

#[test]
fn client_settings_round_trips() {
    client_round_trip(ClientPacket::ClientSettings {
        locale: b"en-US".to_vec(),
        view_distance: 4,
        chat_mode: 0,
        chat_colors: false,
        displayed_skin: 0xFF,
        main_hand: 0,
    });
}

#[test]
fn keep_alive_round_trips() {
    client_round_trip(ClientPacket::KeepAlive { id: 42 });
    client_round_trip(ClientPacket::KeepAlive { id: -7 });
}

#[test]
fn player_position_and_look_round_trips() {
    client_round_trip(ClientPacket::PlayerPositionAndLook {
        x: (1.5f64).to_bits(),
        y: (65.0f64).to_bits(),
        z: (-3.25f64).to_bits(),
        yaw: (90.0f32).to_bits(),
        pitch: (0.0f32).to_bits(),
        on_ground: true,
    });
}

#[test]
fn handshake_round_trips() {
    let p = HandshakePacket::HandshakePacket {
        version: 340,
        host: b"localhost".to_vec(),
        port: 25565,
        next: 2,
    };
    let bytes = encode_handshake(&p);
    assert_eq!(decode_handshake(&bytes).expect("decodes"), p);
}

#[test]
fn login_start_round_trips() {
    let p = ClientLoginPacket::LoginStart { name: b"bilbo".to_vec() };
    let bytes = encode_client_login(&p);
    assert_eq!(decode_client_login(&bytes).expect("decodes"), p);
}

#[test]
fn login_success_decodes() {
    let mut frame = Vec::new();
    write_varint_i32(&mut frame, 2);
    write_string(&mut frame, &b"01234567-89ab-cdef-0123-456789abcdef".to_vec());
    write_string(&mut frame, &b"bilbo".to_vec());
    let p = decode_server_login(&frame).expect("decodes");
    assert_eq!(
        p,
        ServerLoginPacket::LoginSuccess {
            uuid: b"01234567-89ab-cdef-0123-456789abcdef".to_vec(),
            username: b"bilbo".to_vec(),
        }
    );
}

#[test]
fn server_keep_alive_decodes() {
    let mut frame = Vec::new();
    write_varint_i32(&mut frame, 31);
    write_i64(&mut frame, 42);
    assert_eq!(
        decode_server_packet(&frame).expect("decodes"),
        ServerPacket::KeepAlive { id: 42 }
    );
}

#[test]
fn server_block_change_decodes() {
    let mut frame = Vec::new();
    write_varint_i32(&mut frame, 11);
    let packed: u64 = (10u64 << 38) | (64u64 << 26) | 20u64;
    write_u64(&mut frame, packed);
    write_u16(&mut frame, (1 << 4) | 0);
    assert_eq!(
        decode_server_packet(&frame).expect("decodes"),
        ServerPacket::BlockChange { position: packed, block_state: 16 }
    );
}

#[test]
fn server_time_update_decodes() {
    let mut frame = Vec::new();
    write_varint_i32(&mut frame, 71);
    write_i64(&mut frame, 123456);
    write_i64(&mut frame, 6000);
    assert_eq!(
        decode_server_packet(&frame).expect("decodes"),
        ServerPacket::TimeUpdate { world_age: 123456, time_of_day: 6000 }
    );
}

#[test]
fn server_update_health_decodes() {
    let mut frame = Vec::new();
    write_varint_i32(&mut frame, 65);
    frame.extend_from_slice(&(20.0f32).to_bits().to_be_bytes());
    write_varint_i32(&mut frame, 18);
    frame.extend_from_slice(&(5.0f32).to_bits().to_be_bytes());
    assert_eq!(
        decode_server_packet(&frame).expect("decodes"),
        ServerPacket::UpdateHealth {
            health: (20.0f32).to_bits(),
            food: 18,
            saturation: (5.0f32).to_bits(),
        }
    );
}

#[test]
fn server_join_game_decodes() {
    let mut frame = Vec::new();
    write_varint_i32(&mut frame, 35);
    frame.extend_from_slice(&77i32.to_be_bytes()); // entity id
    frame.push(0x21); // creative, hardcore
    frame.extend_from_slice(&0i32.to_be_bytes()); // overworld
    write_varint_i32(&mut frame, 2); // normal difficulty
    frame.push(20); // max players
    write_string(&mut frame, &b"default".to_vec());
    frame.push(0); // reduced debug info
    let p = decode_server_packet(&frame).expect("decodes");
    match p {
        ServerPacket::JoinGame {
            entity_id,
            game_mode,
            dimension,
            difficulty,
            max_players,
            level_type,
            reduced_debug_info,
        } => {
            assert_eq!(entity_id, 77);
            assert_eq!(game_mode.mode, GameMode::Creative);
            assert!(game_mode.hardcore);
            assert_eq!(dimension, DimensionId::Overworld);
            assert_eq!(difficulty, Difficulty::Normal);
            assert_eq!(max_players, 20);
            assert_eq!(level_type, b"default".to_vec());
            assert!(!reduced_debug_info);
        }
        other => panic!("wrong packet {other:?}"),
    }
}

#[test]
fn server_multi_block_change_decodes() {
    let mut frame = Vec::new();
    write_varint_i32(&mut frame, 16);
    frame.extend_from_slice(&1i32.to_be_bytes());
    frame.extend_from_slice(&(-2i32).to_be_bytes());
    write_varint_i32(&mut frame, 2);
    write_u16(&mut frame, 0x1234);
    write_u16(&mut frame, 16);
    write_u16(&mut frame, 0x0001);
    write_u16(&mut frame, 32);
    let p = decode_server_packet(&frame).expect("decodes");
    match p {
        ServerPacket::MultiBlockChange { chunk_x, chunk_z, records } => {
            assert_eq!(chunk_x, 1);
            assert_eq!(chunk_z, -2);
            assert_eq!(records.len(), 2);
            assert_eq!(records[0].local_addr, 0x1234);
            assert_eq!(records[0].block_state, 16);
            assert_eq!(records[1].local_addr, 1);
            assert_eq!(records[1].block_state, 32);
        }
        other => panic!("wrong packet {other:?}"),
    }
}

#[test]
fn server_player_list_add_decodes() {
    let mut frame = Vec::new();
    write_varint_i32(&mut frame, 46);
    write_varint_i32(&mut frame, 0); // add players
    write_varint_i32(&mut frame, 1); // one entry
    frame.extend_from_slice(&7u128.to_be_bytes());
    write_string(&mut frame, &b"alice".to_vec());
    write_varint_i32(&mut frame, 0); // no properties
    write_varint_i32(&mut frame, 1); // game mode
    write_varint_i32(&mut frame, 30); // ping
    frame.push(0); // no display name
    let p = decode_server_packet(&frame).expect("decodes");
    match p {
        ServerPacket::PlayerList { packet: PlayerListPacket::AddPlayers { players } } => {
            assert_eq!(players.len(), 1);
            assert_eq!(players[0].uuid, 7);
            assert_eq!(players[0].name, b"alice".to_vec());
            assert_eq!(players[0].game_mode, 1);
            assert_eq!(players[0].ping, 30);
            assert!(players[0].display_name.is_none());
        }
        other => panic!("wrong packet {other:?}"),
    }
}

#[test]
fn server_player_list_remove_decodes() {
    let mut frame = Vec::new();
    write_varint_i32(&mut frame, 46);
    write_varint_i32(&mut frame, 4); // remove players
    write_varint_i32(&mut frame, 1);
    frame.extend_from_slice(&7u128.to_be_bytes());
    let p = decode_server_packet(&frame).expect("decodes");
    match p {
        ServerPacket::PlayerList { packet: PlayerListPacket::RemovePlayers { players } } => {
            assert_eq!(players.len(), 1);
            assert_eq!(players[0].uuid, 7);
        }
        other => panic!("wrong packet {other:?}"),
    }
}

#[test]
fn server_chat_message_decodes_and_validates_json() {
    let mut frame = Vec::new();
    write_varint_i32(&mut frame, 15);
    write_string(&mut frame, &b"{\"text\":\"hi\"}".to_vec());
    frame.push(0);
    let p = decode_server_packet(&frame).expect("decodes");
    assert_eq!(
        p,
        ServerPacket::ChatMessage { json: b"{\"text\":\"hi\"}".to_vec(), position: 0 }
    );

    let mut bad = Vec::new();
    write_varint_i32(&mut bad, 15);
    write_string(&mut bad, &b"{not json".to_vec());
    bad.push(0);
    assert_eq!(decode_server_packet(&bad), Err(DecodeError::BadShape));
}

#[test]
fn server_empty_variant_decodes_from_ordinal_alone() {
    let mut frame = Vec::new();
    write_varint_i32(&mut frame, 26);
    assert_eq!(decode_server_packet(&frame).expect("decodes"), ServerPacket::Disconnect);
}

#[test]
fn server_unknown_ordinal_is_fatal() {
    let mut frame = Vec::new();
    write_varint_i32(&mut frame, 80);
    assert_eq!(decode_server_packet(&frame), Err(DecodeError::UnknownOrdinal));
}

#[test]
fn server_short_frame_is_fatal() {
    let mut frame = Vec::new();
    write_varint_i32(&mut frame, 31); // keep-alive wants eight more bytes
    frame.push(1);
    assert!(decode_server_packet(&frame).is_err());
}

#[test]
fn client_unknown_ordinal_is_fatal() {
    let mut frame = Vec::new();
    write_varint_i32(&mut frame, 9);
    assert_eq!(decode_client_packet(&frame), Err(DecodeError::UnknownOrdinal));
}
