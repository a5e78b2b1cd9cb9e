use minebot::clock::Clock;
use minebot::events::{
    chat_event_from_parts, chat_message_text, f32_bits_is_zero, listen_chat, listen_health,
    listen_player_list, listen_tick, match_packet_set, match_tick_set, StandardEvent,
    StandardEventMatcher,
};
use minebot::gamestate::GameState;
use minebot::packets::{PlayerListPacket, RemovePlayer, ServerPacket};
use minebot::session::{protocol_reflexes, receive_deadline, Reflex};

#[test]
fn fresh_clock_starts_at_tick_zero() {
    let clock = Clock::new(1000);
    assert_eq!(clock.current_tick(), 0);
    assert_eq!(clock.current_tick_end(), 1050);
    assert_eq!(clock.tick_duration_ms(), 50);
}

#[test]
fn advance_crosses_every_elapsed_boundary() {
    let mut clock = Clock::new(0);
    assert!(!clock.advance(49));
    assert_eq!(clock.current_tick(), 0);
    assert!(clock.advance(50));
    assert_eq!(clock.current_tick(), 1);
    assert!(clock.advance(260));
    assert_eq!(clock.current_tick(), 5);
    assert_eq!(clock.current_tick_end(), 300);
}

#[test]
fn observed_ticks_never_decrease() {
    let mut clock = Clock::new(0);
    clock.handle_time_update(100);
    let mut last = clock.current_tick();
    for step in 0..40u64 {
        clock.advance(step * 17);
        assert!(clock.current_tick() >= last);
        last = clock.current_tick();
    }
}

#[test]
fn clock_ignores_packets_other_than_time_updates() {
    let mut clock = Clock::new(0);
    clock.handle_packet(&ServerPacket::KeepAlive { id: 1 });
    assert_eq!(clock.current_tick(), 0);
    clock.handle_packet(&ServerPacket::TimeUpdate { world_age: 77, time_of_day: 0 });
    assert_eq!(clock.current_tick(), 77);
}

#[test]
fn first_time_update_adopts_the_world_age() {
    let mut clock = Clock::new(0);
    clock.handle_time_update(12345);
    assert_eq!(clock.current_tick(), 12345);
    assert_eq!(clock.tick_duration_ms(), 50);
}

#[test]
fn later_time_updates_trim_the_tick_duration() {
    let mut clock = Clock::new(0);
    clock.handle_time_update(100); // adopt
    clock.handle_time_update(200); // server ahead: shorter ticks
    assert_eq!(clock.tick_duration_ms(), 49);
    clock.handle_time_update(50); // server behind: longer ticks
    clock.handle_time_update(50);
    assert_eq!(clock.tick_duration_ms(), 51);
    clock.handle_time_update(100); // equal: unchanged
    assert_eq!(clock.tick_duration_ms(), 51);
}

#[test]
fn tick_duration_never_drops_below_one() {
    let mut clock = Clock::new(0);
    clock.handle_time_update(0);
    for _ in 0..200 {
        clock.handle_time_update(i64::MAX); // always ahead
    }
    assert_eq!(clock.tick_duration_ms(), 1);
}

#[test]
fn tick_matcher_fires_after_five_boundaries() {
    let mut clock = Clock::new(0);
    clock.handle_time_update(100);
    // adopt left the counter at 100 and the next boundary at 50 ms
    let matchers = vec![listen_tick(105)];
    let mut fired = None;
    for boundary in 1..=5u64 {
        clock.advance(boundary * 50);
        if fired.is_none() {
            fired = match_tick_set(&matchers, clock.current_tick());
        }
    }
    assert_eq!(fired, Some(StandardEvent::TickReached { tick: 105 }));
    assert_eq!(clock.current_tick(), 105);
}

#[test]
fn tick_matcher_stays_quiet_before_the_target() {
    let m = listen_tick(105);
    assert_eq!(m.match_tick(104), None);
    assert_eq!(m.match_tick(105), Some(StandardEvent::TickReached { tick: 105 }));
    assert_eq!(m.match_tick(200), Some(StandardEvent::TickReached { tick: 105 }));
}

#[test]
fn receive_deadline_skips_the_read_on_a_crossed_boundary() {
    let mut clock = Clock::new(0);
    assert_eq!(receive_deadline(&mut clock, 10), Some(50));
    assert_eq!(receive_deadline(&mut clock, 60), None); // boundary crossed
    assert_eq!(receive_deadline(&mut clock, 60), Some(100));
}

#[test]
fn health_matcher_reports_old_value_from_before_the_packet() {
    let mut gs = GameState::new(1, b"bilbo".to_vec());
    let start_bits = gs.health_bits();
    let new_bits = (7.0f32).to_bits();
    let packet = ServerPacket::UpdateHealth { health: new_bits, food: 20, saturation: 0 };
    let ev = listen_health().match_packet(&packet, &gs).expect("health changed");
    assert_eq!(ev, StandardEvent::HealthChanged { new: new_bits, old: start_bits });
    // matchers run against the pre-packet state; only then is it applied
    gs.handle_packet(&packet).expect("handles");
    assert_eq!(gs.health_bits(), new_bits);
    // an equal value is no change
    assert_eq!(listen_health().match_packet(&packet, &gs), None);
}

#[test]
fn player_list_matcher_reports_known_names_of_leavers() {
    let mut gs = GameState::new(1, b"bilbo".to_vec());
    gs.handle_packet(&ServerPacket::PlayerList {
        packet: PlayerListPacket::AddPlayers {
            players: vec![minebot::packets::AddPlayer {
                uuid: 7,
                name: b"alice".to_vec(),
                properties: Vec::new(),
                game_mode: 0,
                ping: 0,
                display_name: None,
            }],
        },
    })
    .expect("handles");
    let packet = ServerPacket::PlayerList {
        packet: PlayerListPacket::RemovePlayers {
            players: vec![RemovePlayer { uuid: 7 }, RemovePlayer { uuid: 1234 }],
        },
    };
    let ev = listen_player_list().match_packet(&packet, &gs).expect("players left");
    assert_eq!(ev, StandardEvent::PlayersLeft { usernames: vec![b"alice".to_vec()] });
}

#[test]
fn chat_matcher_reads_structured_bodies() {
    let gs = GameState::new(1, b"bilbo".to_vec());
    let json = br#"{"with":[{"text":"alice"},{"extra":[{"text":"hi "},{"text":"there"}]}]}"#
        .to_vec();
    let packet = ServerPacket::ChatMessage { json, position: 0 };
    let ev = listen_chat().match_packet(&packet, &gs).expect("chat event");
    assert_eq!(
        ev,
        StandardEvent::ChatMessage { player: b"alice".to_vec(), message: b"hi there".to_vec() }
    );
}

#[test]
fn chat_matcher_falls_back_to_a_plain_string_body() {
    let gs = GameState::new(1, b"bilbo".to_vec());
    let json = br#"{"with":[{"text":"alice"},"hey"]}"#.to_vec();
    let packet = ServerPacket::ChatMessage { json, position: 0 };
    let ev = listen_chat().match_packet(&packet, &gs).expect("chat event");
    assert_eq!(
        ev,
        StandardEvent::ChatMessage { player: b"alice".to_vec(), message: b"hey".to_vec() }
    );
}

#[test]
fn chat_matcher_ignores_own_messages() {
    let gs = GameState::new(1, b"bilbo".to_vec());
    let json = br#"{"with":[{"text":"bilbo"},"hello"]}"#.to_vec();
    let packet = ServerPacket::ChatMessage { json, position: 0 };
    assert_eq!(listen_chat().match_packet(&packet, &gs), None);
}

#[test]
fn matcher_set_takes_the_first_hit() {
    let gs = GameState::new(1, b"bilbo".to_vec());
    let matchers = vec![listen_chat(), listen_health()];
    let packet = ServerPacket::UpdateHealth { health: (1.0f32).to_bits(), food: 20, saturation: 0 };
    let ev = match_packet_set(&matchers, &packet, &gs).expect("health matcher hits");
    assert!(matches!(ev, StandardEvent::HealthChanged { .. }));
    assert_eq!(match_tick_set(&matchers, 500), None);
}

#[test]
fn tick_matcher_set_honours_list_order() {
    let matchers = vec![listen_tick(5), listen_tick(3)];
    assert_eq!(
        match_tick_set(&matchers, 10),
        Some(StandardEvent::TickReached { tick: 5 })
    );
    let matchers = vec![listen_tick(30), listen_tick(3)];
    assert_eq!(
        match_tick_set(&matchers, 10),
        Some(StandardEvent::TickReached { tick: 3 })
    );
}

#[test]
fn chat_helpers_concatenate_and_fall_back() {
    let parts = vec![b"a".to_vec(), b"b".to_vec()];
    assert_eq!(chat_message_text(&parts, None), Some(b"ab".to_vec()));
    assert_eq!(chat_message_text(&Vec::new(), Some(b"plain".to_vec())), Some(b"plain".to_vec()));
    assert_eq!(chat_message_text(&Vec::new(), None), None);
    assert_eq!(
        chat_event_from_parts(None, b"m".to_vec(), None),
        None
    );
}

#[test]
fn keep_alive_is_echoed_with_its_id() {
    let r = protocol_reflexes(&ServerPacket::KeepAlive { id: 42 }, 0x3F80_0000);
    assert_eq!(r, vec![Reflex::SendKeepAlive { id: 42 }]);
}

#[test]
fn teleport_is_confirmed_then_position_sent() {
    let packet = ServerPacket::PlayerPositionAndLook {
        x: 0,
        y: 0,
        z: 0,
        yaw: 0,
        pitch: 0,
        flags: 0,
        teleport_id: 7,
    };
    let r = protocol_reflexes(&packet, 0x3F80_0000);
    assert_eq!(r, vec![Reflex::ConfirmTeleport { teleport_id: 7 }, Reflex::SendPosition]);
    let no_id = ServerPacket::PlayerPositionAndLook {
        x: 0,
        y: 0,
        z: 0,
        yaw: 0,
        pitch: 0,
        flags: 0,
        teleport_id: 0,
    };
    assert_eq!(protocol_reflexes(&no_id, 0), vec![Reflex::SendPosition]);
}

#[test]
fn zero_health_requests_a_respawn() {
    let packet = ServerPacket::UpdateHealth { health: 0, food: 0, saturation: 0 };
    assert_eq!(protocol_reflexes(&packet, 0), vec![Reflex::Respawn]);
    assert_eq!(protocol_reflexes(&packet, (0.5f32).to_bits()), Vec::<Reflex>::new());
    assert!(f32_bits_is_zero((-0.0f32).to_bits()));
}

#[test]
fn unrelated_packets_demand_no_reply() {
    assert_eq!(
        protocol_reflexes(&ServerPacket::Disconnect, 0),
        Vec::<Reflex>::new()
    );
    assert_eq!(
        listen_health().match_packet(&ServerPacket::Disconnect, &GameState::new(1, Vec::new())),
        None
    );
}

#[test]
fn matcher_constructors_name_their_patterns() {
    assert_eq!(listen_chat(), StandardEventMatcher::ChatMessage);
    assert_eq!(listen_health(), StandardEventMatcher::HealthChanged);
    assert_eq!(listen_player_list(), StandardEventMatcher::PlayerListChanged);
    assert_eq!(listen_tick(9), StandardEventMatcher::TickReached(9));
}
