//! The client loop's decisions, separated from its socket: the
//! packets the login handshake sends, the reflex replies a handled
//! packet demands, and the per-tick read deadline.
//!
//! The surrounding program performs the reads and writes; everything
//! here is a pure function from state and packet to the next action.

use crate::clock::Clock;
use crate::events::spec_f32_is_zero;
use crate::packets::{
    ClientLoginPacket, ClientLoginPacketModel, ClientPacket, ClientPacketModel, HandshakePacket,
    HandshakePacketModel, ServerPacket,
};
use vstd::prelude::*;

verus! {

/// A reply the protocol owes after a handled packet.  Where a reply
/// carries the self position, the embedder fills it in, since the
/// position lives in its entity store.
#[derive(Debug, Clone, Copy, PartialEq, Eq, Structural)]
pub enum Reflex {
    /// Echo the keep-alive id back.
    SendKeepAlive { id: i64 },
    /// Confirm a teleport by its id.
    ConfirmTeleport { teleport_id: i32 },
    /// Send the current position and look.
    SendPosition,
    /// Request a respawn: health reached zero.
    Respawn,
}

/// The protocol version this client speaks.
pub const PROTOCOL_VERSION: i32 = 340;

/// The reflex replies a packet demands, in sending order:
/// a keep-alive is echoed with its id; a position-and-look is
/// confirmed by its teleport id (when non-zero) and answered with the
/// current position; a health update that left the mirror at zero
/// health requests a respawn.  `health_after_bits` is the mirror's
/// health after the packet was applied.
pub fn protocol_reflexes(packet: &ServerPacket, health_after_bits: u32) -> (r: Vec<Reflex>)
    ensures
        (*packet) matches ServerPacket::KeepAlive { id } ==> r@ =~= seq![
            Reflex::SendKeepAlive { id },
        ],
        (*packet) matches ServerPacket::PlayerPositionAndLook { teleport_id, .. } ==> r@ =~= (
        if teleport_id != 0 {
            seq![Reflex::ConfirmTeleport { teleport_id }, Reflex::SendPosition]
        } else {
            seq![Reflex::SendPosition]
        }),
        (*packet) matches ServerPacket::UpdateHealth { .. } ==> r@ =~= (
        if spec_f32_is_zero(health_after_bits) {
            seq![Reflex::Respawn]
        } else {
            Seq::<Reflex>::empty()
        }),
        !((*packet) is KeepAlive) && !((*packet) is PlayerPositionAndLook) && !((*packet)
            is UpdateHealth) ==> r@ =~= Seq::<Reflex>::empty(),
{
    let mut r: Vec<Reflex> = Vec::new();
    match packet {
        ServerPacket::KeepAlive { id } => {
            r.push(Reflex::SendKeepAlive { id: *id });
        },
        ServerPacket::PlayerPositionAndLook { teleport_id, .. } => {
            if *teleport_id != 0 {
                r.push(Reflex::ConfirmTeleport { teleport_id: *teleport_id });
            }
            r.push(Reflex::SendPosition);
        },
        ServerPacket::UpdateHealth { .. } => {
            if crate::events::f32_bits_is_zero(health_after_bits) {
                r.push(Reflex::Respawn);
            }
        },
        _ => {},
    }
    r
}

/// The opening handshake: this protocol version, the server address,
/// and a login next-state.
pub fn handshake_for(host: Vec<u8>, port: u16) -> (r: HandshakePacket)
    ensures
        r@ == (HandshakePacketModel::HandshakePacket {
            version: PROTOCOL_VERSION,
            host: host@,
            port,
            next: 2,
        }),
{
    HandshakePacket::HandshakePacket { version: PROTOCOL_VERSION, host, port, next: 2 }
}

/// The login request naming the player.
pub fn login_start(name: Vec<u8>) -> (r: ClientLoginPacket)
    ensures
        r@ == (ClientLoginPacketModel::LoginStart { name: name@ }),
{
    ClientLoginPacket::LoginStart { name }
}

/// The fixed client settings sent once after login: locale `en-US`,
/// view distance 4, chat fully enabled without colours, every skin
/// part shown, right main hand.
pub fn client_settings() -> (r: ClientPacket)
    ensures
        r@ == (ClientPacketModel::ClientSettings {
            locale: seq![0x65u8, 0x6eu8, 0x2du8, 0x55u8, 0x53u8],
            view_distance: 4u8,
            chat_mode: 0i32,
            chat_colors: false,
            displayed_skin: 0xFFu8,
            main_hand: 0i32,
        }),
{
    let mut locale: Vec<u8> = Vec::new();
    locale.push(0x65);
    locale.push(0x6e);
    locale.push(0x2d);
    locale.push(0x55);
    locale.push(0x53);
    proof {
        assert(locale@ =~= seq![0x65u8, 0x6eu8, 0x2du8, 0x55u8, 0x53u8]);
    }
    ClientPacket::ClientSettings {
        locale,
        view_distance: 4,
        chat_mode: 0,
        chat_colors: false,
        displayed_skin: 0xFF,
        main_hand: 0,
    }
}

/// The keep-alive echo.
pub fn keep_alive_reply(id: i64) -> (r: ClientPacket)
    ensures
        r@ == (ClientPacketModel::KeepAlive { id }),
{
    ClientPacket::KeepAlive { id }
}

/// The teleport confirmation.
pub fn teleport_confirm(teleport_id: i32) -> (r: ClientPacket)
    ensures
        r@ == (ClientPacketModel::TeleportConfirm { teleport_id }),
{
    ClientPacket::TeleportConfirm { teleport_id }
}

/// The respawn request: client status action zero.
pub fn respawn_request() -> (r: ClientPacket)
    ensures
        r@ == (ClientPacketModel::ClientStatus { action_id: 0 }),
{
    ClientPacket::ClientStatus { action_id: 0 }
}

/// A chat message to send.
pub fn chat_say(message: Vec<u8>) -> (r: ClientPacket)
    ensures
        r@ == (ClientPacketModel::ChatMessage { message: message@ }),
{
    ClientPacket::ChatMessage { message }
}

/// The outbound position-and-look, from the embedder's entity state
/// (coordinates and angles as IEEE-754 bit patterns).
pub fn position_packet(x: u64, y: u64, z: u64, yaw: u32, pitch: u32, on_ground: bool) -> (r:
    ClientPacket)
    ensures
        r@ == (ClientPacketModel::PlayerPositionAndLook { x, y, z, yaw, pitch, on_ground }),
{
    ClientPacket::PlayerPositionAndLook { x, y, z, yaw, pitch, on_ground }
}

/// One receive step of the poll loop: advance the clock first; a
/// crossed tick boundary yields no read at all (`None`), otherwise
/// the socket read runs until the current tick's end (`Some`
/// deadline).
pub fn receive_deadline(clock: &mut Clock, now_ms: u64) -> (r: Option<u64>)
    requires
        old(clock).wf(),
        now_ms <= crate::clock::NOW_CAP_MS,
        old(clock).spec_current_tick() <= crate::clock::TICK_CAP,
    ensures
        final(clock).wf(),
        final(clock).spec_current_tick() >= old(clock).spec_current_tick(),
        final(clock).spec_initialized() == old(clock).spec_initialized(),
        r matches Some(deadline) ==> deadline == final(clock).spec_current_tick_end() && final(clock).spec_current_tick() == old(clock).spec_current_tick(),
        r is None ==> final(clock).spec_current_tick() > old(clock).spec_current_tick(),
{
    let crossed = clock.advance(now_ms);
    if crossed {
        None
    } else {
        Some(clock.current_tick_end())
    }
}

} // verus!
