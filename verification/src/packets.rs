//! Packet schemas: tagged sums whose variant is selected by a leading
//! variable-length ordinal, followed by the variant's fields.
//!
//! Encoding writes the ordinal then each field; decoding reads the
//! ordinal and dispatches.  An unknown ordinal is a fatal decode error.
//! Each family has a spec-level model (string and blob fields as byte
//! sequences), an emitter and/or parser over the model, and executable
//! functions proved against them.
//!
//! Two representation choices keep the schemas inside plain values:
//! string fields are carried as their UTF-8 bytes, and floating-point
//! fields are carried as their IEEE-754 bit patterns (`u32` for 32-bit,
//! `u64` for 64-bit fields, big-endian on the wire either way).  The
//! embedder converts at the boundary.

use crate::wire::{
    read_bool, read_string, read_u16, read_varint_i32, read_varint_u32, read_u128, read_i64, read_u64, read_u32, read_u8, read_i32, read_i16, read_blob, spec_emit_string,
    spec_emit_varint, spec_parse_bool, spec_parse_string, spec_parse_u16, spec_parse_u32,
    spec_parse_u64, spec_parse_u128, spec_parse_u8, spec_parse_blob, spec_parse_varint, spec_be_bytes, write_bool, write_string,
    write_u16, write_u32, write_u64, write_u8, write_varint_i32, write_varint_u32, DecodeError,
    lemma_emit_varint_len, lemma_parse_varint_emit, lemma_string_round_trip, lemma_be_bytes_len,
    lemma_parse_u16_emit, lemma_parse_u32_emit, lemma_parse_u64_emit,
};
use vstd::prelude::*;

verus! {

/// The opening handshake, sent once per connection.
#[derive(Debug, Clone, PartialEq)]
pub enum HandshakePacket {
    HandshakePacket { version: i32, host: Vec<u8>, port: u16, next: i32 },
}

/// The login request naming the player.
#[derive(Debug, Clone, PartialEq)]
pub enum ClientLoginPacket {
    LoginStart { name: Vec<u8> },
}

/// The server's answer to a login: the player's id (as a hyphenated
/// string) and name.
#[derive(Debug, Clone, PartialEq)]
pub enum ServerLoginPacket {
    LoginSuccess { uuid: Vec<u8>, username: Vec<u8> },
}

/// Client-outbound play packets.
#[derive(Debug, Clone, PartialEq)]
pub enum ClientPacket {
    TeleportConfirm { teleport_id: i32 },
    ChatMessage { message: Vec<u8> },
    ClientStatus { action_id: i32 },
    ClientSettings {
        locale: Vec<u8>,
        view_distance: u8,
        chat_mode: i32,
        chat_colors: bool,
        displayed_skin: u8,
        main_hand: i32,
    },
    KeepAlive { id: i64 },
    PlayerPositionAndLook { x: u64, y: u64, z: u64, yaw: u32, pitch: u32, on_ground: bool },
}

/// Spec-level image of `HandshakePacket`: strings as byte sequences.
#[verifier::ext_equal]
pub enum HandshakePacketModel {
    HandshakePacket { version: i32, host: Seq<u8>, port: u16, next: i32 },
}

/// Spec-level image of `ClientLoginPacket`.
#[verifier::ext_equal]
pub enum ClientLoginPacketModel {
    LoginStart { name: Seq<u8> },
}

/// Spec-level image of `ServerLoginPacket`.
#[verifier::ext_equal]
pub enum ServerLoginPacketModel {
    LoginSuccess { uuid: Seq<u8>, username: Seq<u8> },
}

/// Spec-level image of `ClientPacket`.
#[verifier::ext_equal]
pub enum ClientPacketModel {
    TeleportConfirm { teleport_id: i32 },
    ChatMessage { message: Seq<u8> },
    ClientStatus { action_id: i32 },
    ClientSettings {
        locale: Seq<u8>,
        view_distance: u8,
        chat_mode: i32,
        chat_colors: bool,
        displayed_skin: u8,
        main_hand: i32,
    },
    KeepAlive { id: i64 },
    PlayerPositionAndLook { x: u64, y: u64, z: u64, yaw: u32, pitch: u32, on_ground: bool },
}

impl View for HandshakePacket {
    type V = HandshakePacketModel;

    open spec fn view(&self) -> HandshakePacketModel {
        match self {
            HandshakePacket::HandshakePacket { version, host, port, next } => {
                HandshakePacketModel::HandshakePacket {
                    version: *version,
                    host: host@,
                    port: *port,
                    next: *next,
                }
            },
        }
    }
}

impl View for ClientLoginPacket {
    type V = ClientLoginPacketModel;

    open spec fn view(&self) -> ClientLoginPacketModel {
        match self {
            ClientLoginPacket::LoginStart { name } => {
                ClientLoginPacketModel::LoginStart { name: name@ }
            },
        }
    }
}

impl View for ServerLoginPacket {
    type V = ServerLoginPacketModel;

    open spec fn view(&self) -> ServerLoginPacketModel {
        match self {
            ServerLoginPacket::LoginSuccess { uuid, username } => {
                ServerLoginPacketModel::LoginSuccess { uuid: uuid@, username: username@ }
            },
        }
    }
}

impl View for ClientPacket {
    type V = ClientPacketModel;

    open spec fn view(&self) -> ClientPacketModel {
        match self {
            ClientPacket::TeleportConfirm { teleport_id } => {
                ClientPacketModel::TeleportConfirm { teleport_id: *teleport_id }
            },
            ClientPacket::ChatMessage { message } => {
                ClientPacketModel::ChatMessage { message: message@ }
            },
            ClientPacket::ClientStatus { action_id } => {
                ClientPacketModel::ClientStatus { action_id: *action_id }
            },
            ClientPacket::ClientSettings {
                locale,
                view_distance,
                chat_mode,
                chat_colors,
                displayed_skin,
                main_hand,
            } => {
                ClientPacketModel::ClientSettings {
                    locale: locale@,
                    view_distance: *view_distance,
                    chat_mode: *chat_mode,
                    chat_colors: *chat_colors,
                    displayed_skin: *displayed_skin,
                    main_hand: *main_hand,
                }
            },
            ClientPacket::KeepAlive { id } => ClientPacketModel::KeepAlive { id: *id },
            ClientPacket::PlayerPositionAndLook { x, y, z, yaw, pitch, on_ground } => {
                ClientPacketModel::PlayerPositionAndLook {
                    x: *x,
                    y: *y,
                    z: *z,
                    yaw: *yaw,
                    pitch: *pitch,
                    on_ground: *on_ground,
                }
            },
        }
    }
}

/// One record of a multi-block change: a packed local address and the
/// new packed block state.
#[derive(Debug, Clone, Copy, PartialEq, Eq, Structural)]
pub struct MultiBlockChangeRecord {
    pub local_addr: u16,
    pub block_state: u16,
}

#[derive(Debug, Clone, Copy, PartialEq, Eq, Structural)]
pub enum GameMode {
    Survival,
    Creative,
    Adventure,
    Spectator,
}

/// A game mode together with its hardcore bit, as packed in one byte.
#[derive(Debug, Clone, Copy, PartialEq, Eq, Structural)]
pub struct FullGameMode {
    pub mode: GameMode,
    pub hardcore: bool,
}

#[derive(Debug, Clone, Copy, PartialEq, Eq, Structural)]
pub enum DimensionId {
    Nether,
    Overworld,
    End,
}

#[derive(Debug, Clone, Copy, PartialEq, Eq, Structural)]
pub enum Difficulty {
    Peaceful,
    Easy,
    Normal,
    Hard,
}

// ---------------------------------------------------------------------
// Emitters for the client-outbound families
// ---------------------------------------------------------------------

/// Field bounds under which a handshake can be framed: the host string
/// must fit a non-negative 32-bit length.
pub open spec fn handshake_valid(p: HandshakePacketModel) -> bool {
    match p {
        HandshakePacketModel::HandshakePacket { host, .. } => host.len() <= 0x7fff_ffff,
    }
}

pub open spec fn spec_emit_handshake(p: HandshakePacketModel) -> Seq<u8> {
    match p {
        HandshakePacketModel::HandshakePacket { version, host, port, next } => spec_emit_varint(0)
            + spec_emit_varint(version as u32) + spec_emit_string(host) + spec_be_bytes(
            port as nat,
            2,
        ) + spec_emit_varint(next as u32),
    }
}

pub open spec fn client_login_valid(p: ClientLoginPacketModel) -> bool {
    match p {
        ClientLoginPacketModel::LoginStart { name } => name.len() <= 0x7fff_ffff,
    }
}

pub open spec fn spec_emit_client_login(p: ClientLoginPacketModel) -> Seq<u8> {
    match p {
        ClientLoginPacketModel::LoginStart { name } => spec_emit_varint(0) + spec_emit_string(name),
    }
}

/// Field bounds under which a client packet can be framed: every
/// string fits a non-negative 32-bit length.
pub open spec fn client_packet_valid(p: ClientPacketModel) -> bool {
    match p {
        ClientPacketModel::ChatMessage { message } => message.len() <= 0x7fff_ffff,
        ClientPacketModel::ClientSettings { locale, .. } => locale.len() <= 0x7fff_ffff,
        _ => true,
    }
}

pub open spec fn spec_emit_client_packet(p: ClientPacketModel) -> Seq<u8> {
    match p {
        ClientPacketModel::TeleportConfirm { teleport_id } => spec_emit_varint(0)
            + spec_emit_varint(teleport_id as u32),
        ClientPacketModel::ChatMessage { message } => spec_emit_varint(2) + spec_emit_string(
            message,
        ),
        ClientPacketModel::ClientStatus { action_id } => spec_emit_varint(3) + spec_emit_varint(
            action_id as u32,
        ),
        ClientPacketModel::ClientSettings {
            locale,
            view_distance,
            chat_mode,
            chat_colors,
            displayed_skin,
            main_hand,
        } => spec_emit_varint(4) + spec_emit_string(locale) + seq![view_distance]
            + spec_emit_varint(chat_mode as u32) + seq![(if chat_colors { 1u8 } else { 0u8 })]
            + seq![displayed_skin] + spec_emit_varint(main_hand as u32),
        ClientPacketModel::KeepAlive { id } => spec_emit_varint(11) + spec_be_bytes(
            (id as u64) as nat,
            8,
        ),
        ClientPacketModel::PlayerPositionAndLook { x, y, z, yaw, pitch, on_ground } => {
            spec_emit_varint(14) + spec_be_bytes(x as nat, 8) + spec_be_bytes(y as nat, 8)
                + spec_be_bytes(z as nat, 8) + spec_be_bytes(yaw as nat, 4) + spec_be_bytes(
                pitch as nat,
                4,
            ) + seq![(if on_ground { 1u8 } else { 0u8 })]
        },
    }
}

/// Encode a handshake packet: ordinal, then each field.
pub fn encode_handshake(p: &HandshakePacket) -> (r: Vec<u8>)
    requires
        handshake_valid(p@),
    ensures
        r@ == spec_emit_handshake(p@),
{
    let mut out: Vec<u8> = Vec::new();
    match p {
        HandshakePacket::HandshakePacket { version, host, port, next } => {
            write_varint_u32(&mut out, 0);
            write_varint_i32(&mut out, *version);
            write_string(&mut out, host);
            write_u16(&mut out, *port);
            write_varint_i32(&mut out, *next);
        },
    }
    assert(out@ =~= spec_emit_handshake(p@));
    out
}

/// Encode a login-start packet.
pub fn encode_client_login(p: &ClientLoginPacket) -> (r: Vec<u8>)
    requires
        client_login_valid(p@),
    ensures
        r@ == spec_emit_client_login(p@),
{
    let mut out: Vec<u8> = Vec::new();
    match p {
        ClientLoginPacket::LoginStart { name } => {
            write_varint_u32(&mut out, 0);
            write_string(&mut out, name);
        },
    }
    assert(out@ =~= spec_emit_client_login(p@));
    out
}

/// Encode a client-outbound play packet: ordinal, then each field.
pub fn encode_client_packet(p: &ClientPacket) -> (r: Vec<u8>)
    requires
        client_packet_valid(p@),
    ensures
        r@ == spec_emit_client_packet(p@),
{
    let mut out: Vec<u8> = Vec::new();
    match p {
        ClientPacket::TeleportConfirm { teleport_id } => {
            write_varint_u32(&mut out, 0);
            write_varint_i32(&mut out, *teleport_id);
        },
        ClientPacket::ChatMessage { message } => {
            write_varint_u32(&mut out, 2);
            write_string(&mut out, message);
        },
        ClientPacket::ClientStatus { action_id } => {
            write_varint_u32(&mut out, 3);
            write_varint_i32(&mut out, *action_id);
        },
        ClientPacket::ClientSettings {
            locale,
            view_distance,
            chat_mode,
            chat_colors,
            displayed_skin,
            main_hand,
        } => {
            write_varint_u32(&mut out, 4);
            write_string(&mut out, locale);
            write_u8(&mut out, *view_distance);
            write_varint_i32(&mut out, *chat_mode);
            write_bool(&mut out, *chat_colors);
            write_u8(&mut out, *displayed_skin);
            write_varint_i32(&mut out, *main_hand);
        },
        ClientPacket::KeepAlive { id } => {
            write_varint_u32(&mut out, 11);
            write_u64(&mut out, *id as u64);
        },
        ClientPacket::PlayerPositionAndLook { x, y, z, yaw, pitch, on_ground } => {
            write_varint_u32(&mut out, 14);
            write_u64(&mut out, *x);
            write_u64(&mut out, *y);
            write_u64(&mut out, *z);
            write_u32(&mut out, *yaw);
            write_u32(&mut out, *pitch);
            write_bool(&mut out, *on_ground);
        },
    }
    assert(out@ =~= spec_emit_client_packet(p@));
    out
}

// ---------------------------------------------------------------------
// Parsers for the inbound images of the outbound families
// ---------------------------------------------------------------------

pub open spec fn spec_parse_client_body(b: Seq<u8>, i: int, ord: u32) -> Option<
    ClientPacketModel,
> {
    if ord == 0 {
        match spec_parse_varint(b, i, 5) {
            Some((v, _)) => Some(ClientPacketModel::TeleportConfirm { teleport_id: v as i32 }),
            None => None,
        }
    } else if ord == 2 {
        match spec_parse_string(b, i) {
            Some((s, _)) => Some(ClientPacketModel::ChatMessage { message: s }),
            None => None,
        }
    } else if ord == 3 {
        match spec_parse_varint(b, i, 5) {
            Some((v, _)) => Some(ClientPacketModel::ClientStatus { action_id: v as i32 }),
            None => None,
        }
    } else if ord == 4 {
        match spec_parse_string(b, i) {
            Some((locale, j1)) => match spec_parse_u8(b, j1) {
                Some((view_distance, j2)) => match spec_parse_varint(b, j2, 5) {
                    Some((chat_mode, j3)) => match spec_parse_bool(b, j3) {
                        Some((chat_colors, j4)) => match spec_parse_u8(b, j4) {
                            Some((displayed_skin, j5)) => match spec_parse_varint(b, j5, 5) {
                                Some((main_hand, _)) => Some(
                                    ClientPacketModel::ClientSettings {
                                        locale,
                                        view_distance,
                                        chat_mode: chat_mode as i32,
                                        chat_colors,
                                        displayed_skin,
                                        main_hand: main_hand as i32,
                                    },
                                ),
                                None => None,
                            },
                            None => None,
                        },
                        None => None,
                    },
                    None => None,
                },
                None => None,
            },
            None => None,
        }
    } else if ord == 11 {
        match spec_parse_u64(b, i) {
            Some((v, _)) => Some(ClientPacketModel::KeepAlive { id: v as i64 }),
            None => None,
        }
    } else if ord == 14 {
        match spec_parse_u64(b, i) {
            Some((x, j1)) => match spec_parse_u64(b, j1) {
                Some((y, j2)) => match spec_parse_u64(b, j2) {
                    Some((z, j3)) => match spec_parse_u32(b, j3) {
                        Some((yaw, j4)) => match spec_parse_u32(b, j4) {
                            Some((pitch, j5)) => match spec_parse_bool(b, j5) {
                                Some((on_ground, _)) => Some(
                                    ClientPacketModel::PlayerPositionAndLook {
                                        x,
                                        y,
                                        z,
                                        yaw,
                                        pitch,
                                        on_ground,
                                    },
                                ),
                                None => None,
                            },
                            None => None,
                        },
                        None => None,
                    },
                    None => None,
                },
                None => None,
            },
            None => None,
        }
    } else {
        None
    }
}

/// Parse a whole client-packet frame: ordinal, then the variant's
/// fields.  Trailing bytes beyond the last field are ignored, as the
/// frame is already length-delimited.
pub open spec fn spec_parse_client_packet(b: Seq<u8>) -> Option<ClientPacketModel> {
    match spec_parse_varint(b, 0, 5) {
        Some((ord, i)) => spec_parse_client_body(b, i, ord),
        None => None,
    }
}

/// Decode a client-packet frame, the inbound image of the outbound
/// schema.
pub fn decode_client_packet(frame: &Vec<u8>) -> (r: Result<ClientPacket, DecodeError>)
    ensures
        match spec_parse_client_packet(frame@) {
            Some(m) => r matches Ok(p) && p@ == m,
            None => r is Err,
        },
{
    let mut pos: usize = 0;
    let ord = match read_varint_u32(frame, &mut pos) {
        Ok(v) => v,
        Err(e) => { return Err(e) },
    };
    if ord == 0 {
        match read_varint_i32(frame, &mut pos) {
            Ok(v) => Ok(ClientPacket::TeleportConfirm { teleport_id: v }),
            Err(e) => Err(e),
        }
    } else if ord == 2 {
        match read_string(frame, &mut pos) {
            Ok(s) => Ok(ClientPacket::ChatMessage { message: s }),
            Err(e) => Err(e),
        }
    } else if ord == 3 {
        match read_varint_i32(frame, &mut pos) {
            Ok(v) => Ok(ClientPacket::ClientStatus { action_id: v }),
            Err(e) => Err(e),
        }
    } else if ord == 4 {
        let locale = match read_string(frame, &mut pos) {
            Ok(v) => v,
            Err(e) => { return Err(e) },
        };
        let view_distance = match crate::wire::read_u8(frame, &mut pos) {
            Ok(v) => v,
            Err(e) => { return Err(e) },
        };
        let chat_mode = match read_varint_i32(frame, &mut pos) {
            Ok(v) => v,
            Err(e) => { return Err(e) },
        };
        let chat_colors = match read_bool(frame, &mut pos) {
            Ok(v) => v,
            Err(e) => { return Err(e) },
        };
        let displayed_skin = match crate::wire::read_u8(frame, &mut pos) {
            Ok(v) => v,
            Err(e) => { return Err(e) },
        };
        let main_hand = match read_varint_i32(frame, &mut pos) {
            Ok(v) => v,
            Err(e) => { return Err(e) },
        };
        Ok(
            ClientPacket::ClientSettings {
                locale,
                view_distance,
                chat_mode,
                chat_colors,
                displayed_skin,
                main_hand,
            },
        )
    } else if ord == 11 {
        match crate::wire::read_i64(frame, &mut pos) {
            Ok(v) => Ok(ClientPacket::KeepAlive { id: v }),
            Err(e) => Err(e),
        }
    } else if ord == 14 {
        let x = match crate::wire::read_u64(frame, &mut pos) {
            Ok(v) => v,
            Err(e) => { return Err(e) },
        };
        let y = match crate::wire::read_u64(frame, &mut pos) {
            Ok(v) => v,
            Err(e) => { return Err(e) },
        };
        let z = match crate::wire::read_u64(frame, &mut pos) {
            Ok(v) => v,
            Err(e) => { return Err(e) },
        };
        let yaw = match crate::wire::read_u32(frame, &mut pos) {
            Ok(v) => v,
            Err(e) => { return Err(e) },
        };
        let pitch = match crate::wire::read_u32(frame, &mut pos) {
            Ok(v) => v,
            Err(e) => { return Err(e) },
        };
        let on_ground = match read_bool(frame, &mut pos) {
            Ok(v) => v,
            Err(e) => { return Err(e) },
        };
        Ok(ClientPacket::PlayerPositionAndLook { x, y, z, yaw, pitch, on_ground })
    } else {
        Err(DecodeError::UnknownOrdinal)
    }
}

/// Parse a handshake frame, the inbound image of the outbound schema.
pub open spec fn spec_parse_handshake(b: Seq<u8>) -> Option<HandshakePacketModel> {
    match spec_parse_varint(b, 0, 5) {
        Some((ord, i)) => {
            if ord == 0 {
                match spec_parse_varint(b, i, 5) {
                    Some((version, j1)) => match spec_parse_string(b, j1) {
                        Some((host, j2)) => match spec_parse_u16(b, j2) {
                            Some((port, j3)) => match spec_parse_varint(b, j3, 5) {
                                Some((next, _)) => Some(
                                    HandshakePacketModel::HandshakePacket {
                                        version: version as i32,
                                        host,
                                        port,
                                        next: next as i32,
                                    },
                                ),
                                None => None,
                            },
                            None => None,
                        },
                        None => None,
                    },
                    None => None,
                }
            } else {
                None
            }
        },
        None => None,
    }
}

/// Decode a handshake frame.
pub fn decode_handshake(frame: &Vec<u8>) -> (r: Result<HandshakePacket, DecodeError>)
    ensures
        match spec_parse_handshake(frame@) {
            Some(m) => r matches Ok(p) && p@ == m,
            None => r is Err,
        },
{
    let mut pos: usize = 0;
    let ord = match read_varint_u32(frame, &mut pos) {
        Ok(v) => v,
        Err(e) => { return Err(e) },
    };
    if ord != 0 {
        return Err(DecodeError::UnknownOrdinal);
    }
    let version = match read_varint_i32(frame, &mut pos) {
        Ok(v) => v,
        Err(e) => { return Err(e) },
    };
    let host = match read_string(frame, &mut pos) {
        Ok(v) => v,
        Err(e) => { return Err(e) },
    };
    let port = match read_u16(frame, &mut pos) {
        Ok(v) => v,
        Err(e) => { return Err(e) },
    };
    let next = match read_varint_i32(frame, &mut pos) {
        Ok(v) => v,
        Err(e) => { return Err(e) },
    };
    Ok(HandshakePacket::HandshakePacket { version, host, port, next })
}

/// Parse a login-start frame, the inbound image of the outbound schema.
pub open spec fn spec_parse_client_login(b: Seq<u8>) -> Option<ClientLoginPacketModel> {
    match spec_parse_varint(b, 0, 5) {
        Some((ord, i)) => {
            if ord == 0 {
                match spec_parse_string(b, i) {
                    Some((name, _)) => Some(ClientLoginPacketModel::LoginStart { name }),
                    None => None,
                }
            } else {
                None
            }
        },
        None => None,
    }
}

/// Decode a login-start frame.
pub fn decode_client_login(frame: &Vec<u8>) -> (r: Result<ClientLoginPacket, DecodeError>)
    ensures
        match spec_parse_client_login(frame@) {
            Some(m) => r matches Ok(p) && p@ == m,
            None => r is Err,
        },
{
    let mut pos: usize = 0;
    let ord = match read_varint_u32(frame, &mut pos) {
        Ok(v) => v,
        Err(e) => { return Err(e) },
    };
    if ord != 0 {
        return Err(DecodeError::UnknownOrdinal);
    }
    let name = match read_string(frame, &mut pos) {
        Ok(v) => v,
        Err(e) => { return Err(e) },
    };
    Ok(ClientLoginPacket::LoginStart { name })
}

/// Parse a login-success frame.
pub open spec fn spec_parse_server_login(b: Seq<u8>) -> Option<ServerLoginPacketModel> {
    match spec_parse_varint(b, 0, 5) {
        Some((ord, i)) => {
            if ord == 2 {
                match spec_parse_string(b, i) {
                    Some((uuid, j1)) => match spec_parse_string(b, j1) {
                        Some((username, _)) => Some(
                            ServerLoginPacketModel::LoginSuccess { uuid, username },
                        ),
                        None => None,
                    },
                    None => None,
                }
            } else {
                None
            }
        },
        None => None,
    }
}

/// Decode the server's login answer.
pub fn decode_server_login(frame: &Vec<u8>) -> (r: Result<ServerLoginPacket, DecodeError>)
    ensures
        match spec_parse_server_login(frame@) {
            Some(m) => r matches Ok(p) && p@ == m,
            None => r is Err,
        },
{
    let mut pos: usize = 0;
    let ord = match read_varint_u32(frame, &mut pos) {
        Ok(v) => v,
        Err(e) => { return Err(e) },
    };
    if ord != 2 {
        return Err(DecodeError::UnknownOrdinal);
    }
    let uuid = match read_string(frame, &mut pos) {
        Ok(v) => v,
        Err(e) => { return Err(e) },
    };
    let username = match read_string(frame, &mut pos) {
        Ok(v) => v,
        Err(e) => { return Err(e) },
    };
    Ok(ServerLoginPacket::LoginSuccess { uuid, username })
}

// ---------------------------------------------------------------------
// The player-list packet and its sub-records
// ---------------------------------------------------------------------

/// One profile property of an added player (for example a skin), kept
/// verbatim.
#[derive(Debug, Clone, PartialEq)]
pub struct PlayerProperty {
    pub name: Vec<u8>,
    pub value: Vec<u8>,
    pub signature: Option<Vec<u8>>,
}

/// Spec-level image of `PlayerProperty`.
#[verifier::ext_equal]
pub struct PlayerPropertyModel {
    pub name: Seq<u8>,
    pub value: Seq<u8>,
    pub signature: Option<Seq<u8>>,
}

impl View for PlayerProperty {
    type V = PlayerPropertyModel;

    open spec fn view(&self) -> PlayerPropertyModel {
        PlayerPropertyModel {
            name: self.name@,
            value: self.value@,
            signature: match self.signature {
                Some(ref s) => Some(s@),
                None => None,
            },
        }
    }
}

/// An add-players entry: the player's id and name, with the profile
/// fields the wire carries alongside them.
#[derive(Debug, Clone, PartialEq)]
pub struct AddPlayer {
    pub uuid: u128,
    pub name: Vec<u8>,
    pub properties: Vec<PlayerProperty>,
    pub game_mode: i32,
    pub ping: i32,
    pub display_name: Option<Vec<u8>>,
}

/// Spec-level image of `AddPlayer`.
#[verifier::ext_equal]
pub struct AddPlayerModel {
    pub uuid: u128,
    pub name: Seq<u8>,
    pub properties: Seq<PlayerPropertyModel>,
    pub game_mode: i32,
    pub ping: i32,
    pub display_name: Option<Seq<u8>>,
}

impl View for AddPlayer {
    type V = AddPlayerModel;

    open spec fn view(&self) -> AddPlayerModel {
        AddPlayerModel {
            uuid: self.uuid,
            name: self.name@,
            properties: self.properties@.map_values(|p: PlayerProperty| p@),
            game_mode: self.game_mode,
            ping: self.ping,
            display_name: match self.display_name {
                Some(ref s) => Some(s@),
                None => None,
            },
        }
    }
}

/// A remove-players entry: the leaving player's id.
#[derive(Debug, Clone, Copy, PartialEq, Eq, Structural)]
pub struct RemovePlayer {
    pub uuid: u128,
}

/// The player-list packet carries either an add-list or a remove-list.
#[derive(Debug, Clone, PartialEq)]
pub enum PlayerListPacket {
    AddPlayers { players: Vec<AddPlayer> },
    RemovePlayers { players: Vec<RemovePlayer> },
}

/// Spec-level image of `PlayerListPacket`.
#[verifier::ext_equal]
pub enum PlayerListPacketModel {
    AddPlayers { players: Seq<AddPlayerModel> },
    RemovePlayers { players: Seq<RemovePlayer> },
}

impl View for PlayerListPacket {
    type V = PlayerListPacketModel;

    open spec fn view(&self) -> PlayerListPacketModel {
        match self {
            PlayerListPacket::AddPlayers { players } => {
                PlayerListPacketModel::AddPlayers {
                    players: players@.map_values(|p: AddPlayer| p@),
                }
            },
            PlayerListPacket::RemovePlayers { players } => {
                PlayerListPacketModel::RemovePlayers { players: players@ }
            },
        }
    }
}


/// Server-inbound play packets, one variant per wire ordinal.
#[derive(Debug, Clone, PartialEq)]
pub enum ServerPacket {
    SpawnObject,
    SpawnExperienceOrb,
    SpawnGlobalEntity,
    SpawnMob,
    SpawnPainting,
    SpawnPlayer { entity_id: i32, uuid: u128, x: u64, y: u64, z: u64, yaw: u8, pitch: u8 },
    Animation,
    Statistics,
    BlockBreakAnimation,
    UpdateBlockEntity,
    BlockAction,
    BlockChange { position: u64, block_state: u16 },
    BossBar,
    ServerDifficulty { difficulty: Difficulty },
    TabComplete,
    ChatMessage { json: Vec<u8>, position: u8 },
    MultiBlockChange { chunk_x: i32, chunk_z: i32, records: Vec<MultiBlockChangeRecord> },
    ConfirmTransaction,
    CloseWindow,
    OpenWindow,
    WindowItems,
    WindowProperty,
    SetSlot,
    SetCooldown,
    PluginMessage { channel: Vec<u8> },
    SoundEffect,
    Disconnect,
    EntityStatus { entity_id: i32, status: u8 },
    Explosion,
    UnloadChunk { chunk_x: i32, chunk_z: i32 },
    ChangeGameState,
    KeepAlive { id: i64 },
    ChunkData { chunk_x: i32, chunk_z: i32, full_chunk: bool, primary_bitmask: i32, data: Vec<u8> },
    Effect,
    Particle,
    JoinGame { entity_id: i32, game_mode: FullGameMode, dimension: DimensionId, difficulty: Difficulty, max_players: u8, level_type: Vec<u8>, reduced_debug_info: bool },
    MapData,
    Entity,
    EntityRelativeMove { entity_id: i32, delta_x: i16, delta_y: i16, delta_z: i16, on_ground: bool },
    EntityLookAndRelativeMove { entity_id: i32 },
    EntityLook { entity_id: i32, yaw: u8, pitch: u8, on_ground: bool },
    VehicleMove,
    OpenSignEditor,
    CraftRecipeResponse,
    PlayerAbilities { flags: u8, flying_speed: u32, fov: u32 },
    CombatEvent,
    PlayerList { packet: PlayerListPacket },
    PlayerPositionAndLook { x: u64, y: u64, z: u64, yaw: u32, pitch: u32, flags: u8, teleport_id: i32 },
    UseBed,
    UnlockRecipes { action: i32, book_open: bool, filtering: bool },
    DestroyEntities,
    RemoveEntityEffect,
    ResourcePackSend,
    Respawn,
    EntityHeadLook { entity_id: i32, yaw: u8 },
    SelectAdvancementTab,
    WorldBorder,
    Camera,
    HeldItemChange { slot: u8 },
    DisplayScoreboard,
    EntityMetadata { entity_id: i32 },
    AttachEntity,
    EntityVelocity { entity_id: i32, velocity_x: i16, velocity_y: i16, velocity_z: i16 },
    EntityEquipment { entity_id: i32 },
    SetExperience,
    UpdateHealth { health: u32, food: i32, saturation: u32 },
    ScoreboardObjective,
    SetPassengers,
    Teams,
    UpdateScore,
    SpawnPosition,
    TimeUpdate { world_age: i64, time_of_day: i64 },
    Title,
    SoundEffect2,
    PlayerListHeaderFooter,
    CollectItem,
    EntityTeleport,
    Advancements,
    EntityProperties { entity_id: i32 },
    EntityEffect,
}

/// Spec-level image of `ServerPacket`.
#[verifier::ext_equal]
pub enum ServerPacketModel {
    SpawnObject,
    SpawnExperienceOrb,
    SpawnGlobalEntity,
    SpawnMob,
    SpawnPainting,
    SpawnPlayer { entity_id: i32, uuid: u128, x: u64, y: u64, z: u64, yaw: u8, pitch: u8 },
    Animation,
    Statistics,
    BlockBreakAnimation,
    UpdateBlockEntity,
    BlockAction,
    BlockChange { position: u64, block_state: u16 },
    BossBar,
    ServerDifficulty { difficulty: Difficulty },
    TabComplete,
    ChatMessage { json: Seq<u8>, position: u8 },
    MultiBlockChange { chunk_x: i32, chunk_z: i32, records: Seq<MultiBlockChangeRecord> },
    ConfirmTransaction,
    CloseWindow,
    OpenWindow,
    WindowItems,
    WindowProperty,
    SetSlot,
    SetCooldown,
    PluginMessage { channel: Seq<u8> },
    SoundEffect,
    Disconnect,
    EntityStatus { entity_id: i32, status: u8 },
    Explosion,
    UnloadChunk { chunk_x: i32, chunk_z: i32 },
    ChangeGameState,
    KeepAlive { id: i64 },
    ChunkData { chunk_x: i32, chunk_z: i32, full_chunk: bool, primary_bitmask: i32, data: Seq<u8> },
    Effect,
    Particle,
    JoinGame { entity_id: i32, game_mode: FullGameMode, dimension: DimensionId, difficulty: Difficulty, max_players: u8, level_type: Seq<u8>, reduced_debug_info: bool },
    MapData,
    Entity,
    EntityRelativeMove { entity_id: i32, delta_x: i16, delta_y: i16, delta_z: i16, on_ground: bool },
    EntityLookAndRelativeMove { entity_id: i32 },
    EntityLook { entity_id: i32, yaw: u8, pitch: u8, on_ground: bool },
    VehicleMove,
    OpenSignEditor,
    CraftRecipeResponse,
    PlayerAbilities { flags: u8, flying_speed: u32, fov: u32 },
    CombatEvent,
    PlayerList { packet: PlayerListPacketModel },
    PlayerPositionAndLook { x: u64, y: u64, z: u64, yaw: u32, pitch: u32, flags: u8, teleport_id: i32 },
    UseBed,
    UnlockRecipes { action: i32, book_open: bool, filtering: bool },
    DestroyEntities,
    RemoveEntityEffect,
    ResourcePackSend,
    Respawn,
    EntityHeadLook { entity_id: i32, yaw: u8 },
    SelectAdvancementTab,
    WorldBorder,
    Camera,
    HeldItemChange { slot: u8 },
    DisplayScoreboard,
    EntityMetadata { entity_id: i32 },
    AttachEntity,
    EntityVelocity { entity_id: i32, velocity_x: i16, velocity_y: i16, velocity_z: i16 },
    EntityEquipment { entity_id: i32 },
    SetExperience,
    UpdateHealth { health: u32, food: i32, saturation: u32 },
    ScoreboardObjective,
    SetPassengers,
    Teams,
    UpdateScore,
    SpawnPosition,
    TimeUpdate { world_age: i64, time_of_day: i64 },
    Title,
    SoundEffect2,
    PlayerListHeaderFooter,
    CollectItem,
    EntityTeleport,
    Advancements,
    EntityProperties { entity_id: i32 },
    EntityEffect,
}

impl View for ServerPacket {
    type V = ServerPacketModel;

    open spec fn view(&self) -> ServerPacketModel {
        match self {
            ServerPacket::SpawnObject => ServerPacketModel::SpawnObject,
            ServerPacket::SpawnExperienceOrb => ServerPacketModel::SpawnExperienceOrb,
            ServerPacket::SpawnGlobalEntity => ServerPacketModel::SpawnGlobalEntity,
            ServerPacket::SpawnMob => ServerPacketModel::SpawnMob,
            ServerPacket::SpawnPainting => ServerPacketModel::SpawnPainting,
            ServerPacket::SpawnPlayer { entity_id, uuid, x, y, z, yaw, pitch } => ServerPacketModel::SpawnPlayer { entity_id: *entity_id, uuid: *uuid, x: *x, y: *y, z: *z, yaw: *yaw, pitch: *pitch },
            ServerPacket::Animation => ServerPacketModel::Animation,
            ServerPacket::Statistics => ServerPacketModel::Statistics,
            ServerPacket::BlockBreakAnimation => ServerPacketModel::BlockBreakAnimation,
            ServerPacket::UpdateBlockEntity => ServerPacketModel::UpdateBlockEntity,
            ServerPacket::BlockAction => ServerPacketModel::BlockAction,
            ServerPacket::BlockChange { position, block_state } => ServerPacketModel::BlockChange { position: *position, block_state: *block_state },
            ServerPacket::BossBar => ServerPacketModel::BossBar,
            ServerPacket::ServerDifficulty { difficulty } => ServerPacketModel::ServerDifficulty { difficulty: *difficulty },
            ServerPacket::TabComplete => ServerPacketModel::TabComplete,
            ServerPacket::ChatMessage { json, position } => ServerPacketModel::ChatMessage { json: json@, position: *position },
            ServerPacket::MultiBlockChange { chunk_x, chunk_z, records } => ServerPacketModel::MultiBlockChange { chunk_x: *chunk_x, chunk_z: *chunk_z, records: records@ },
            ServerPacket::ConfirmTransaction => ServerPacketModel::ConfirmTransaction,
            ServerPacket::CloseWindow => ServerPacketModel::CloseWindow,
            ServerPacket::OpenWindow => ServerPacketModel::OpenWindow,
            ServerPacket::WindowItems => ServerPacketModel::WindowItems,
            ServerPacket::WindowProperty => ServerPacketModel::WindowProperty,
            ServerPacket::SetSlot => ServerPacketModel::SetSlot,
            ServerPacket::SetCooldown => ServerPacketModel::SetCooldown,
            ServerPacket::PluginMessage { channel } => ServerPacketModel::PluginMessage { channel: channel@ },
            ServerPacket::SoundEffect => ServerPacketModel::SoundEffect,
            ServerPacket::Disconnect => ServerPacketModel::Disconnect,
            ServerPacket::EntityStatus { entity_id, status } => ServerPacketModel::EntityStatus { entity_id: *entity_id, status: *status },
            ServerPacket::Explosion => ServerPacketModel::Explosion,
            ServerPacket::UnloadChunk { chunk_x, chunk_z } => ServerPacketModel::UnloadChunk { chunk_x: *chunk_x, chunk_z: *chunk_z },
            ServerPacket::ChangeGameState => ServerPacketModel::ChangeGameState,
            ServerPacket::KeepAlive { id } => ServerPacketModel::KeepAlive { id: *id },
            ServerPacket::ChunkData { chunk_x, chunk_z, full_chunk, primary_bitmask, data } => ServerPacketModel::ChunkData { chunk_x: *chunk_x, chunk_z: *chunk_z, full_chunk: *full_chunk, primary_bitmask: *primary_bitmask, data: data@ },
            ServerPacket::Effect => ServerPacketModel::Effect,
            ServerPacket::Particle => ServerPacketModel::Particle,
            ServerPacket::JoinGame { entity_id, game_mode, dimension, difficulty, max_players, level_type, reduced_debug_info } => ServerPacketModel::JoinGame { entity_id: *entity_id, game_mode: *game_mode, dimension: *dimension, difficulty: *difficulty, max_players: *max_players, level_type: level_type@, reduced_debug_info: *reduced_debug_info },
            ServerPacket::MapData => ServerPacketModel::MapData,
            ServerPacket::Entity => ServerPacketModel::Entity,
            ServerPacket::EntityRelativeMove { entity_id, delta_x, delta_y, delta_z, on_ground } => ServerPacketModel::EntityRelativeMove { entity_id: *entity_id, delta_x: *delta_x, delta_y: *delta_y, delta_z: *delta_z, on_ground: *on_ground },
            ServerPacket::EntityLookAndRelativeMove { entity_id } => ServerPacketModel::EntityLookAndRelativeMove { entity_id: *entity_id },
            ServerPacket::EntityLook { entity_id, yaw, pitch, on_ground } => ServerPacketModel::EntityLook { entity_id: *entity_id, yaw: *yaw, pitch: *pitch, on_ground: *on_ground },
            ServerPacket::VehicleMove => ServerPacketModel::VehicleMove,
            ServerPacket::OpenSignEditor => ServerPacketModel::OpenSignEditor,
            ServerPacket::CraftRecipeResponse => ServerPacketModel::CraftRecipeResponse,
            ServerPacket::PlayerAbilities { flags, flying_speed, fov } => ServerPacketModel::PlayerAbilities { flags: *flags, flying_speed: *flying_speed, fov: *fov },
            ServerPacket::CombatEvent => ServerPacketModel::CombatEvent,
            ServerPacket::PlayerList { packet } => ServerPacketModel::PlayerList { packet: packet@ },
            ServerPacket::PlayerPositionAndLook { x, y, z, yaw, pitch, flags, teleport_id } => ServerPacketModel::PlayerPositionAndLook { x: *x, y: *y, z: *z, yaw: *yaw, pitch: *pitch, flags: *flags, teleport_id: *teleport_id },
            ServerPacket::UseBed => ServerPacketModel::UseBed,
            ServerPacket::UnlockRecipes { action, book_open, filtering } => ServerPacketModel::UnlockRecipes { action: *action, book_open: *book_open, filtering: *filtering },
            ServerPacket::DestroyEntities => ServerPacketModel::DestroyEntities,
            ServerPacket::RemoveEntityEffect => ServerPacketModel::RemoveEntityEffect,
            ServerPacket::ResourcePackSend => ServerPacketModel::ResourcePackSend,
            ServerPacket::Respawn => ServerPacketModel::Respawn,
            ServerPacket::EntityHeadLook { entity_id, yaw } => ServerPacketModel::EntityHeadLook { entity_id: *entity_id, yaw: *yaw },
            ServerPacket::SelectAdvancementTab => ServerPacketModel::SelectAdvancementTab,
            ServerPacket::WorldBorder => ServerPacketModel::WorldBorder,
            ServerPacket::Camera => ServerPacketModel::Camera,
            ServerPacket::HeldItemChange { slot } => ServerPacketModel::HeldItemChange { slot: *slot },
            ServerPacket::DisplayScoreboard => ServerPacketModel::DisplayScoreboard,
            ServerPacket::EntityMetadata { entity_id } => ServerPacketModel::EntityMetadata { entity_id: *entity_id },
            ServerPacket::AttachEntity => ServerPacketModel::AttachEntity,
            ServerPacket::EntityVelocity { entity_id, velocity_x, velocity_y, velocity_z } => ServerPacketModel::EntityVelocity { entity_id: *entity_id, velocity_x: *velocity_x, velocity_y: *velocity_y, velocity_z: *velocity_z },
            ServerPacket::EntityEquipment { entity_id } => ServerPacketModel::EntityEquipment { entity_id: *entity_id },
            ServerPacket::SetExperience => ServerPacketModel::SetExperience,
            ServerPacket::UpdateHealth { health, food, saturation } => ServerPacketModel::UpdateHealth { health: *health, food: *food, saturation: *saturation },
            ServerPacket::ScoreboardObjective => ServerPacketModel::ScoreboardObjective,
            ServerPacket::SetPassengers => ServerPacketModel::SetPassengers,
            ServerPacket::Teams => ServerPacketModel::Teams,
            ServerPacket::UpdateScore => ServerPacketModel::UpdateScore,
            ServerPacket::SpawnPosition => ServerPacketModel::SpawnPosition,
            ServerPacket::TimeUpdate { world_age, time_of_day } => ServerPacketModel::TimeUpdate { world_age: *world_age, time_of_day: *time_of_day },
            ServerPacket::Title => ServerPacketModel::Title,
            ServerPacket::SoundEffect2 => ServerPacketModel::SoundEffect2,
            ServerPacket::PlayerListHeaderFooter => ServerPacketModel::PlayerListHeaderFooter,
            ServerPacket::CollectItem => ServerPacketModel::CollectItem,
            ServerPacket::EntityTeleport => ServerPacketModel::EntityTeleport,
            ServerPacket::Advancements => ServerPacketModel::Advancements,
            ServerPacket::EntityProperties { entity_id } => ServerPacketModel::EntityProperties { entity_id: *entity_id },
            ServerPacket::EntityEffect => ServerPacketModel::EntityEffect,
        }
    }
}

/// The variants that carry no decoded fields: the ordinal alone
/// selects them and decoding consumes nothing further.
pub open spec fn spec_empty_server_packet(ord: u32) -> Option<ServerPacketModel> {
    if ord == 0 {
        Some(ServerPacketModel::SpawnObject)
    } else if ord == 1 {
        Some(ServerPacketModel::SpawnExperienceOrb)
    } else if ord == 2 {
        Some(ServerPacketModel::SpawnGlobalEntity)
    } else if ord == 3 {
        Some(ServerPacketModel::SpawnMob)
    } else if ord == 4 {
        Some(ServerPacketModel::SpawnPainting)
    } else if ord == 6 {
        Some(ServerPacketModel::Animation)
    } else if ord == 7 {
        Some(ServerPacketModel::Statistics)
    } else if ord == 8 {
        Some(ServerPacketModel::BlockBreakAnimation)
    } else if ord == 9 {
        Some(ServerPacketModel::UpdateBlockEntity)
    } else if ord == 10 {
        Some(ServerPacketModel::BlockAction)
    } else if ord == 12 {
        Some(ServerPacketModel::BossBar)
    } else if ord == 14 {
        Some(ServerPacketModel::TabComplete)
    } else if ord == 17 {
        Some(ServerPacketModel::ConfirmTransaction)
    } else if ord == 18 {
        Some(ServerPacketModel::CloseWindow)
    } else if ord == 19 {
        Some(ServerPacketModel::OpenWindow)
    } else if ord == 20 {
        Some(ServerPacketModel::WindowItems)
    } else if ord == 21 {
        Some(ServerPacketModel::WindowProperty)
    } else if ord == 22 {
        Some(ServerPacketModel::SetSlot)
    } else if ord == 23 {
        Some(ServerPacketModel::SetCooldown)
    } else if ord == 25 {
        Some(ServerPacketModel::SoundEffect)
    } else if ord == 26 {
        Some(ServerPacketModel::Disconnect)
    } else if ord == 28 {
        Some(ServerPacketModel::Explosion)
    } else if ord == 30 {
        Some(ServerPacketModel::ChangeGameState)
    } else if ord == 33 {
        Some(ServerPacketModel::Effect)
    } else if ord == 34 {
        Some(ServerPacketModel::Particle)
    } else if ord == 36 {
        Some(ServerPacketModel::MapData)
    } else if ord == 37 {
        Some(ServerPacketModel::Entity)
    } else if ord == 41 {
        Some(ServerPacketModel::VehicleMove)
    } else if ord == 42 {
        Some(ServerPacketModel::OpenSignEditor)
    } else if ord == 43 {
        Some(ServerPacketModel::CraftRecipeResponse)
    } else if ord == 45 {
        Some(ServerPacketModel::CombatEvent)
    } else if ord == 48 {
        Some(ServerPacketModel::UseBed)
    } else if ord == 50 {
        Some(ServerPacketModel::DestroyEntities)
    } else if ord == 51 {
        Some(ServerPacketModel::RemoveEntityEffect)
    } else if ord == 52 {
        Some(ServerPacketModel::ResourcePackSend)
    } else if ord == 53 {
        Some(ServerPacketModel::Respawn)
    } else if ord == 55 {
        Some(ServerPacketModel::SelectAdvancementTab)
    } else if ord == 56 {
        Some(ServerPacketModel::WorldBorder)
    } else if ord == 57 {
        Some(ServerPacketModel::Camera)
    } else if ord == 59 {
        Some(ServerPacketModel::DisplayScoreboard)
    } else if ord == 61 {
        Some(ServerPacketModel::AttachEntity)
    } else if ord == 64 {
        Some(ServerPacketModel::SetExperience)
    } else if ord == 66 {
        Some(ServerPacketModel::ScoreboardObjective)
    } else if ord == 67 {
        Some(ServerPacketModel::SetPassengers)
    } else if ord == 68 {
        Some(ServerPacketModel::Teams)
    } else if ord == 69 {
        Some(ServerPacketModel::UpdateScore)
    } else if ord == 70 {
        Some(ServerPacketModel::SpawnPosition)
    } else if ord == 72 {
        Some(ServerPacketModel::Title)
    } else if ord == 73 {
        Some(ServerPacketModel::SoundEffect2)
    } else if ord == 74 {
        Some(ServerPacketModel::PlayerListHeaderFooter)
    } else if ord == 75 {
        Some(ServerPacketModel::CollectItem)
    } else if ord == 76 {
        Some(ServerPacketModel::EntityTeleport)
    } else if ord == 77 {
        Some(ServerPacketModel::Advancements)
    } else if ord == 79 {
        Some(ServerPacketModel::EntityEffect)
    } else {
        None
    }
}

fn empty_server_packet(ord: u32) -> (r: Option<ServerPacket>)
    ensures
        match spec_empty_server_packet(ord) {
            Some(m) => r matches Some(p) && p@ == m,
            None => r is None,
        },
{
    if ord == 0 {
        Some(ServerPacket::SpawnObject)
    } else if ord == 1 {
        Some(ServerPacket::SpawnExperienceOrb)
    } else if ord == 2 {
        Some(ServerPacket::SpawnGlobalEntity)
    } else if ord == 3 {
        Some(ServerPacket::SpawnMob)
    } else if ord == 4 {
        Some(ServerPacket::SpawnPainting)
    } else if ord == 6 {
        Some(ServerPacket::Animation)
    } else if ord == 7 {
        Some(ServerPacket::Statistics)
    } else if ord == 8 {
        Some(ServerPacket::BlockBreakAnimation)
    } else if ord == 9 {
        Some(ServerPacket::UpdateBlockEntity)
    } else if ord == 10 {
        Some(ServerPacket::BlockAction)
    } else if ord == 12 {
        Some(ServerPacket::BossBar)
    } else if ord == 14 {
        Some(ServerPacket::TabComplete)
    } else if ord == 17 {
        Some(ServerPacket::ConfirmTransaction)
    } else if ord == 18 {
        Some(ServerPacket::CloseWindow)
    } else if ord == 19 {
        Some(ServerPacket::OpenWindow)
    } else if ord == 20 {
        Some(ServerPacket::WindowItems)
    } else if ord == 21 {
        Some(ServerPacket::WindowProperty)
    } else if ord == 22 {
        Some(ServerPacket::SetSlot)
    } else if ord == 23 {
        Some(ServerPacket::SetCooldown)
    } else if ord == 25 {
        Some(ServerPacket::SoundEffect)
    } else if ord == 26 {
        Some(ServerPacket::Disconnect)
    } else if ord == 28 {
        Some(ServerPacket::Explosion)
    } else if ord == 30 {
        Some(ServerPacket::ChangeGameState)
    } else if ord == 33 {
        Some(ServerPacket::Effect)
    } else if ord == 34 {
        Some(ServerPacket::Particle)
    } else if ord == 36 {
        Some(ServerPacket::MapData)
    } else if ord == 37 {
        Some(ServerPacket::Entity)
    } else if ord == 41 {
        Some(ServerPacket::VehicleMove)
    } else if ord == 42 {
        Some(ServerPacket::OpenSignEditor)
    } else if ord == 43 {
        Some(ServerPacket::CraftRecipeResponse)
    } else if ord == 45 {
        Some(ServerPacket::CombatEvent)
    } else if ord == 48 {
        Some(ServerPacket::UseBed)
    } else if ord == 50 {
        Some(ServerPacket::DestroyEntities)
    } else if ord == 51 {
        Some(ServerPacket::RemoveEntityEffect)
    } else if ord == 52 {
        Some(ServerPacket::ResourcePackSend)
    } else if ord == 53 {
        Some(ServerPacket::Respawn)
    } else if ord == 55 {
        Some(ServerPacket::SelectAdvancementTab)
    } else if ord == 56 {
        Some(ServerPacket::WorldBorder)
    } else if ord == 57 {
        Some(ServerPacket::Camera)
    } else if ord == 59 {
        Some(ServerPacket::DisplayScoreboard)
    } else if ord == 61 {
        Some(ServerPacket::AttachEntity)
    } else if ord == 64 {
        Some(ServerPacket::SetExperience)
    } else if ord == 66 {
        Some(ServerPacket::ScoreboardObjective)
    } else if ord == 67 {
        Some(ServerPacket::SetPassengers)
    } else if ord == 68 {
        Some(ServerPacket::Teams)
    } else if ord == 69 {
        Some(ServerPacket::UpdateScore)
    } else if ord == 70 {
        Some(ServerPacket::SpawnPosition)
    } else if ord == 72 {
        Some(ServerPacket::Title)
    } else if ord == 73 {
        Some(ServerPacket::SoundEffect2)
    } else if ord == 74 {
        Some(ServerPacket::PlayerListHeaderFooter)
    } else if ord == 75 {
        Some(ServerPacket::CollectItem)
    } else if ord == 76 {
        Some(ServerPacket::EntityTeleport)
    } else if ord == 77 {
        Some(ServerPacket::Advancements)
    } else if ord == 79 {
        Some(ServerPacket::EntityEffect)
    } else {
        None
    }
}

// ---------------------------------------------------------------------
// Counted lists: a variable-length count followed by that many records
// ---------------------------------------------------------------------

/// A record type that knows how its spec-level image is parsed.
pub trait WireItem: Sized {
    /// Parse one record at offset `i`.
    spec fn parse_item(b: Seq<u8>, i: int) -> Option<(Self, int)>;
}

/// Parse `n` consecutive records.
pub open spec fn spec_parse_list<T: WireItem>(b: Seq<u8>, i: int, n: nat) -> Option<
    (Seq<T>, int),
>
    decreases n,
{
    if n == 0 {
        Some((Seq::empty(), i))
    } else {
        match T::parse_item(b, i) {
            Some((x, j)) => match spec_parse_list::<T>(b, j, (n - 1) as nat) {
                Some((rest, k)) => Some((seq![x] + rest, k)),
                None => None,
            },
            None => None,
        }
    }
}

/// Loop invariant for the list readers: the whole parse equals the
/// records already read followed by a parse of what remains.
pub open spec fn list_cont_ok<T: WireItem>(
    b: Seq<u8>,
    i0: int,
    n: nat,
    done: Seq<T>,
    pos: int,
    k: nat,
) -> bool {
    &&& k <= n
    &&& match spec_parse_list::<T>(b, i0, n) {
        Some((s, j)) => match spec_parse_list::<T>(b, pos, (n - k) as nat) {
            Some((s2, j2)) => s == done + s2 && j == j2,
            None => false,
        },
        None => spec_parse_list::<T>(b, pos, (n - k) as nat) is None,
    }
}

pub(crate) proof fn lemma_list_cont_init<T: WireItem>(b: Seq<u8>, i: int, n: nat)
    ensures
        list_cont_ok::<T>(b, i, n, Seq::empty(), i, 0),
{
    match spec_parse_list::<T>(b, i, n) {
        Some((s, j)) => {
            assert(Seq::<T>::empty() + s =~= s);
        },
        None => {},
    }
}

pub(crate) proof fn lemma_list_cont_step<T: WireItem>(
    b: Seq<u8>,
    i0: int,
    n: nat,
    done: Seq<T>,
    pos: int,
    k: nat,
    x: T,
    j: int,
)
    requires
        list_cont_ok::<T>(b, i0, n, done, pos, k),
        k < n,
        T::parse_item(b, pos) == Some::<(T, int)>((x, j)),
    ensures
        list_cont_ok::<T>(b, i0, n, done.push(x), j, (k + 1) as nat),
{
    assert(spec_parse_list::<T>(b, pos, (n - k) as nat) == (match spec_parse_list::<T>(
        b,
        j,
        (n - k - 1) as nat,
    ) {
        Some((rest, end)) => Some::<(Seq<T>, int)>((seq![x] + rest, end)),
        None => None,
    }));
    match spec_parse_list::<T>(b, j, (n - k - 1) as nat) {
        Some((rest, end)) => {
            match spec_parse_list::<T>(b, i0, n) {
                Some((s, jj)) => {
                    assert(s == done + (seq![x] + rest));
                    assert(done + (seq![x] + rest) =~= done.push(x) + rest);
                },
                None => {},
            }
        },
        None => {},
    }
}

pub(crate) proof fn lemma_list_cont_fail<T: WireItem>(
    b: Seq<u8>,
    i0: int,
    n: nat,
    done: Seq<T>,
    pos: int,
    k: nat,
)
    requires
        list_cont_ok::<T>(b, i0, n, done, pos, k),
        k < n,
        T::parse_item(b, pos) is None,
    ensures
        spec_parse_list::<T>(b, i0, n) is None,
{
}

pub(crate) proof fn lemma_list_cont_finish<T: WireItem>(
    b: Seq<u8>,
    i0: int,
    n: nat,
    done: Seq<T>,
    pos: int,
)
    requires
        list_cont_ok::<T>(b, i0, n, done, pos, n),
    ensures
        spec_parse_list::<T>(b, i0, n) == Some::<(Seq<T>, int)>((done, pos)),
{
    match spec_parse_list::<T>(b, i0, n) {
        Some((s, j)) => {
            assert(done + Seq::<T>::empty() =~= done);
        },
        None => {},
    }
}

impl WireItem for MultiBlockChangeRecord {
    /// A packed local address and a packed block state.
    open spec fn parse_item(b: Seq<u8>, i: int) -> Option<(Self, int)> {
        match spec_parse_u16(b, i) {
            Some((local_addr, j1)) => match spec_parse_u16(b, j1) {
                Some((block_state, j2)) => Some(
                    (MultiBlockChangeRecord { local_addr, block_state }, j2),
                ),
                None => None,
            },
            None => None,
        }
    }
}

impl WireItem for RemovePlayer {
    /// Just the leaving player's id.
    open spec fn parse_item(b: Seq<u8>, i: int) -> Option<(Self, int)> {
        match spec_parse_u128(b, i) {
            Some((uuid, j)) => Some((RemovePlayer { uuid }, j)),
            None => None,
        }
    }
}

impl WireItem for PlayerPropertyModel {
    /// Name, value, and an optional signature behind a flag byte.
    open spec fn parse_item(b: Seq<u8>, i: int) -> Option<(Self, int)> {
        match spec_parse_string(b, i) {
            Some((name, j1)) => match spec_parse_string(b, j1) {
                Some((value, j2)) => match spec_parse_bool(b, j2) {
                    Some((signed, j3)) => {
                        if signed {
                            match spec_parse_string(b, j3) {
                                Some((sig, j4)) => Some(
                                    (
                                        PlayerPropertyModel {
                                            name,
                                            value,
                                            signature: Some(sig),
                                        },
                                        j4,
                                    ),
                                ),
                                None => None,
                            }
                        } else {
                            Some((PlayerPropertyModel { name, value, signature: None }, j3))
                        }
                    },
                    None => None,
                },
                None => None,
            },
            None => None,
        }
    }
}

/// How many records a signed count asks for: a negative count yields
/// none, as iterating an empty range would.
pub open spec fn spec_list_len(cnt: u32) -> nat {
    if (cnt as i32) < 0 {
        0
    } else {
        (cnt as i32) as nat
    }
}

impl WireItem for AddPlayerModel {
    /// Id, name, profile properties, game mode, ping, and an optional
    /// display name behind a flag byte.
    open spec fn parse_item(b: Seq<u8>, i: int) -> Option<(Self, int)> {
        match spec_parse_u128(b, i) {
            Some((uuid, j1)) => match spec_parse_string(b, j1) {
                Some((name, j2)) => match spec_parse_varint(b, j2, 5) {
                    Some((pcnt, j3)) => match spec_parse_list::<PlayerPropertyModel>(
                        b,
                        j3,
                        spec_list_len(pcnt),
                    ) {
                        Some((properties, j4)) => match spec_parse_varint(b, j4, 5) {
                            Some((game_mode, j5)) => match spec_parse_varint(b, j5, 5) {
                                Some((ping, j6)) => match spec_parse_bool(b, j6) {
                                    Some((has_display, j7)) => {
                                        if has_display {
                                            match spec_parse_string(b, j7) {
                                                Some((display, j8)) => Some(
                                                    (
                                                        AddPlayerModel {
                                                            uuid,
                                                            name,
                                                            properties,
                                                            game_mode: game_mode as i32,
                                                            ping: ping as i32,
                                                            display_name: Some(display),
                                                        },
                                                        j8,
                                                    ),
                                                ),
                                                None => None,
                                            }
                                        } else {
                                            Some(
                                                (
                                                    AddPlayerModel {
                                                        uuid,
                                                        name,
                                                        properties,
                                                        game_mode: game_mode as i32,
                                                        ping: ping as i32,
                                                        display_name: None,
                                                    },
                                                    j7,
                                                ),
                                            )
                                        }
                                    },
                                    None => None,
                                },
                                None => None,
                            },
                            None => None,
                        },
                        None => None,
                    },
                    None => None,
                },
                None => None,
            },
            None => None,
        }
    }
}


fn read_mbc_record(buf: &Vec<u8>, pos: &mut usize) -> (r: Result<
    MultiBlockChangeRecord,
    DecodeError,
>)
    requires
        *old(pos) <= buf@.len(),
    ensures
        *final(pos) <= buf@.len(),
        *old(pos) <= *final(pos),
        match MultiBlockChangeRecord::parse_item(buf@, *old(pos) as int) {
            Some((m, j)) => r == Ok::<MultiBlockChangeRecord, DecodeError>(m) && *final(pos) == j,
            None => r is Err && *final(pos) == *old(pos),
        },
{
    let start: usize = *pos;
    let local_addr = match read_u16(buf, pos) {
        Ok(v) => v,
        Err(e) => { return Err(e) },
    };
    let block_state = match read_u16(buf, pos) {
        Ok(v) => v,
        Err(e) => {
            *pos = start;
            return Err(e)
        },
    };
    Ok(MultiBlockChangeRecord { local_addr, block_state })
}

fn read_mbc_records(buf: &Vec<u8>, pos: &mut usize, n: u32) -> (r: Result<
    Vec<MultiBlockChangeRecord>,
    DecodeError,
>)
    requires
        *old(pos) <= buf@.len(),
    ensures
        *final(pos) <= buf@.len(),
        *old(pos) <= *final(pos),
        match spec_parse_list::<MultiBlockChangeRecord>(buf@, *old(pos) as int, n as nat) {
            Some((s, j)) => r matches Ok(v) && v@ == s && *final(pos) == j,
            None => r is Err,
        },
{
    let ghost i0 = *old(pos) as int;
    let mut out: Vec<MultiBlockChangeRecord> = Vec::new();
    let mut k: u32 = 0;
    proof {
        lemma_list_cont_init::<MultiBlockChangeRecord>(buf@, i0, n as nat);
    }
    while k < n
        invariant
            k <= n,
            *pos <= buf@.len(),
            i0 == *old(pos) as int,
            i0 <= *pos as int,
            list_cont_ok::<MultiBlockChangeRecord>(buf@, i0, n as nat, out@, *pos as int, k as nat),
        decreases n - k,
    {
        let ghost item_pos = *pos as int;
        let rec = match read_mbc_record(buf, pos) {
            Ok(v) => v,
            Err(e) => {
                proof {
                    lemma_list_cont_fail::<MultiBlockChangeRecord>(
                        buf@,
                        i0,
                        n as nat,
                        out@,
                        *pos as int,
                        k as nat,
                    );
                }
                return Err(e)
            },
        };
        proof {
            lemma_list_cont_step::<MultiBlockChangeRecord>(
                buf@,
                i0,
                n as nat,
                out@,
                item_pos,
                k as nat,
                rec,
                *pos as int,
            );
        }
        out.push(rec);
        k += 1;
    }
    proof {
        lemma_list_cont_finish::<MultiBlockChangeRecord>(buf@, i0, n as nat, out@, *pos as int);
    }
    Ok(out)
}

fn read_remove_player(buf: &Vec<u8>, pos: &mut usize) -> (r: Result<RemovePlayer, DecodeError>)
    requires
        *old(pos) <= buf@.len(),
    ensures
        *final(pos) <= buf@.len(),
        *old(pos) <= *final(pos),
        match RemovePlayer::parse_item(buf@, *old(pos) as int) {
            Some((m, j)) => r == Ok::<RemovePlayer, DecodeError>(m) && *final(pos) == j,
            None => r is Err && *final(pos) == *old(pos),
        },
{
    match read_u128(buf, pos) {
        Ok(uuid) => Ok(RemovePlayer { uuid }),
        Err(e) => Err(e),
    }
}

fn read_remove_players(buf: &Vec<u8>, pos: &mut usize, n: u32) -> (r: Result<
    Vec<RemovePlayer>,
    DecodeError,
>)
    requires
        *old(pos) <= buf@.len(),
    ensures
        *final(pos) <= buf@.len(),
        *old(pos) <= *final(pos),
        match spec_parse_list::<RemovePlayer>(buf@, *old(pos) as int, n as nat) {
            Some((s, j)) => r matches Ok(v) && v@ == s && *final(pos) == j,
            None => r is Err,
        },
{
    let ghost i0 = *old(pos) as int;
    let mut out: Vec<RemovePlayer> = Vec::new();
    let mut k: u32 = 0;
    proof {
        lemma_list_cont_init::<RemovePlayer>(buf@, i0, n as nat);
    }
    while k < n
        invariant
            k <= n,
            *pos <= buf@.len(),
            i0 == *old(pos) as int,
            i0 <= *pos as int,
            list_cont_ok::<RemovePlayer>(buf@, i0, n as nat, out@, *pos as int, k as nat),
        decreases n - k,
    {
        let ghost item_pos = *pos as int;
        let rec = match read_remove_player(buf, pos) {
            Ok(v) => v,
            Err(e) => {
                proof {
                    lemma_list_cont_fail::<RemovePlayer>(
                        buf@,
                        i0,
                        n as nat,
                        out@,
                        *pos as int,
                        k as nat,
                    );
                }
                return Err(e)
            },
        };
        proof {
            lemma_list_cont_step::<RemovePlayer>(
                buf@,
                i0,
                n as nat,
                out@,
                item_pos,
                k as nat,
                rec,
                *pos as int,
            );
        }
        out.push(rec);
        k += 1;
    }
    proof {
        lemma_list_cont_finish::<RemovePlayer>(buf@, i0, n as nat, out@, *pos as int);
    }
    Ok(out)
}

fn read_property(buf: &Vec<u8>, pos: &mut usize) -> (r: Result<PlayerProperty, DecodeError>)
    requires
        *old(pos) <= buf@.len(),
    ensures
        *final(pos) <= buf@.len(),
        *old(pos) <= *final(pos),
        match PlayerPropertyModel::parse_item(buf@, *old(pos) as int) {
            Some((m, j)) => r matches Ok(p) && p@ == m && *final(pos) == j,
            None => r is Err,
        },
{
    let name = match read_string(buf, pos) {
        Ok(v) => v,
        Err(e) => { return Err(e) },
    };
    let value = match read_string(buf, pos) {
        Ok(v) => v,
        Err(e) => { return Err(e) },
    };
    let signed = match read_bool(buf, pos) {
        Ok(v) => v,
        Err(e) => { return Err(e) },
    };
    let signature = if signed {
        match read_string(buf, pos) {
            Ok(v) => Some(v),
            Err(e) => { return Err(e) },
        }
    } else {
        None
    };
    Ok(PlayerProperty { name, value, signature })
}

fn read_properties(buf: &Vec<u8>, pos: &mut usize, n: u32) -> (r: Result<
    Vec<PlayerProperty>,
    DecodeError,
>)
    requires
        *old(pos) <= buf@.len(),
    ensures
        *final(pos) <= buf@.len(),
        *old(pos) <= *final(pos),
        match spec_parse_list::<PlayerPropertyModel>(buf@, *old(pos) as int, n as nat) {
            Some((s, j)) => r matches Ok(v) && v@.map_values(|p: PlayerProperty| p@) == s
                && *final(pos) == j,
            None => r is Err,
        },
{
    let ghost i0 = *old(pos) as int;
    let mut out: Vec<PlayerProperty> = Vec::new();
    let mut k: u32 = 0;
    proof {
        lemma_list_cont_init::<PlayerPropertyModel>(buf@, i0, n as nat);
        assert(out@.map_values(|p: PlayerProperty| p@) =~= Seq::<PlayerPropertyModel>::empty());
    }
    while k < n
        invariant
            k <= n,
            *pos <= buf@.len(),
            i0 == *old(pos) as int,
            i0 <= *pos as int,
            list_cont_ok::<PlayerPropertyModel>(
                buf@,
                i0,
                n as nat,
                out@.map_values(|p: PlayerProperty| p@),
                *pos as int,
                k as nat,
            ),
        decreases n - k,
    {
        let ghost item_pos = *pos as int;
        let rec = match read_property(buf, pos) {
            Ok(v) => v,
            Err(e) => {
                proof {
                    lemma_list_cont_fail::<PlayerPropertyModel>(
                        buf@,
                        i0,
                        n as nat,
                        out@.map_values(|p: PlayerProperty| p@),
                        item_pos,
                        k as nat,
                    );
                }
                return Err(e)
            },
        };
        proof {
            lemma_list_cont_step::<PlayerPropertyModel>(
                buf@,
                i0,
                n as nat,
                out@.map_values(|p: PlayerProperty| p@),
                item_pos,
                k as nat,
                rec@,
                *pos as int,
            );
        }
        let ghost prev = out@;
        out.push(rec);
        proof {
            assert(out@.map_values(|p: PlayerProperty| p@) =~= prev.map_values(
                |p: PlayerProperty| p@,
            ).push(rec@));
        }
        k += 1;
    }
    proof {
        lemma_list_cont_finish::<PlayerPropertyModel>(
            buf@,
            i0,
            n as nat,
            out@.map_values(|p: PlayerProperty| p@),
            *pos as int,
        );
    }
    Ok(out)
}

fn read_add_player(buf: &Vec<u8>, pos: &mut usize) -> (r: Result<AddPlayer, DecodeError>)
    requires
        *old(pos) <= buf@.len(),
    ensures
        *final(pos) <= buf@.len(),
        *old(pos) <= *final(pos),
        match AddPlayerModel::parse_item(buf@, *old(pos) as int) {
            Some((m, j)) => r matches Ok(p) && p@ == m && *final(pos) == j,
            None => r is Err,
        },
{
    let uuid = match read_u128(buf, pos) {
        Ok(v) => v,
        Err(e) => { return Err(e) },
    };
    let name = match read_string(buf, pos) {
        Ok(v) => v,
        Err(e) => { return Err(e) },
    };
    let pcnt = match read_varint_u32(buf, pos) {
        Ok(v) => v,
        Err(e) => { return Err(e) },
    };
    let pcnt_i = pcnt as i32;
    let pn: u32 = if pcnt_i < 0 {
        0
    } else {
        pcnt
    };
    proof {
        crate::wire::lemma_u32_i32_sign(pcnt);
        assert(pn as nat == spec_list_len(pcnt));
    }
    let properties = match read_properties(buf, pos, pn) {
        Ok(v) => v,
        Err(e) => { return Err(e) },
    };
    let game_mode = match read_varint_i32(buf, pos) {
        Ok(v) => v,
        Err(e) => { return Err(e) },
    };
    let ping = match read_varint_i32(buf, pos) {
        Ok(v) => v,
        Err(e) => { return Err(e) },
    };
    let has_display = match read_bool(buf, pos) {
        Ok(v) => v,
        Err(e) => { return Err(e) },
    };
    let display_name = if has_display {
        match read_string(buf, pos) {
            Ok(v) => Some(v),
            Err(e) => { return Err(e) },
        }
    } else {
        None
    };
    Ok(AddPlayer { uuid, name, properties, game_mode, ping, display_name })
}

fn read_add_players(buf: &Vec<u8>, pos: &mut usize, n: u32) -> (r: Result<
    Vec<AddPlayer>,
    DecodeError,
>)
    requires
        *old(pos) <= buf@.len(),
    ensures
        *final(pos) <= buf@.len(),
        *old(pos) <= *final(pos),
        match spec_parse_list::<AddPlayerModel>(buf@, *old(pos) as int, n as nat) {
            Some((s, j)) => r matches Ok(v) && v@.map_values(|p: AddPlayer| p@) == s && *final(pos)
                == j,
            None => r is Err,
        },
{
    let ghost i0 = *old(pos) as int;
    let mut out: Vec<AddPlayer> = Vec::new();
    let mut k: u32 = 0;
    proof {
        lemma_list_cont_init::<AddPlayerModel>(buf@, i0, n as nat);
        assert(out@.map_values(|p: AddPlayer| p@) =~= Seq::<AddPlayerModel>::empty());
    }
    while k < n
        invariant
            k <= n,
            *pos <= buf@.len(),
            i0 == *old(pos) as int,
            i0 <= *pos as int,
            list_cont_ok::<AddPlayerModel>(
                buf@,
                i0,
                n as nat,
                out@.map_values(|p: AddPlayer| p@),
                *pos as int,
                k as nat,
            ),
        decreases n - k,
    {
        let ghost item_pos = *pos as int;
        let rec = match read_add_player(buf, pos) {
            Ok(v) => v,
            Err(e) => {
                proof {
                    lemma_list_cont_fail::<AddPlayerModel>(
                        buf@,
                        i0,
                        n as nat,
                        out@.map_values(|p: AddPlayer| p@),
                        item_pos,
                        k as nat,
                    );
                }
                return Err(e)
            },
        };
        proof {
            lemma_list_cont_step::<AddPlayerModel>(
                buf@,
                i0,
                n as nat,
                out@.map_values(|p: AddPlayer| p@),
                item_pos,
                k as nat,
                rec@,
                *pos as int,
            );
        }
        let ghost prev = out@;
        out.push(rec);
        proof {
            assert(out@.map_values(|p: AddPlayer| p@) =~= prev.map_values(
                |p: AddPlayer| p@,
            ).push(rec@));
        }
        k += 1;
    }
    proof {
        lemma_list_cont_finish::<AddPlayerModel>(
            buf@,
            i0,
            n as nat,
            out@.map_values(|p: AddPlayer| p@),
            *pos as int,
        );
    }
    Ok(out)
}


// ---------------------------------------------------------------------
// Server-packet field parsers
// ---------------------------------------------------------------------

/// The difficulty ordinal, as the wire carries it.
pub open spec fn spec_difficulty(v: u32) -> Option<Difficulty> {
    if v == 0 {
        Some(Difficulty::Peaceful)
    } else if v == 1 {
        Some(Difficulty::Easy)
    } else if v == 2 {
        Some(Difficulty::Normal)
    } else if v == 3 {
        Some(Difficulty::Hard)
    } else {
        None
    }
}

fn difficulty_of(v: u32) -> (r: Option<Difficulty>)
    ensures
        r == spec_difficulty(v),
{
    if v == 0 {
        Some(Difficulty::Peaceful)
    } else if v == 1 {
        Some(Difficulty::Easy)
    } else if v == 2 {
        Some(Difficulty::Normal)
    } else if v == 3 {
        Some(Difficulty::Hard)
    } else {
        None
    }
}

/// The packed game-mode byte: low nibble selects the mode, a set high
/// nibble marks hardcore.
pub open spec fn spec_full_game_mode(code: u8) -> Option<FullGameMode> {
    let m = code & 0x0F;
    let hardcore = (code & 0xF0) > 0;
    if m == 0 {
        Some(FullGameMode { mode: GameMode::Survival, hardcore })
    } else if m == 1 {
        Some(FullGameMode { mode: GameMode::Creative, hardcore })
    } else if m == 2 {
        Some(FullGameMode { mode: GameMode::Adventure, hardcore })
    } else if m == 3 {
        Some(FullGameMode { mode: GameMode::Spectator, hardcore })
    } else {
        None
    }
}

fn full_game_mode_of(code: u8) -> (r: Option<FullGameMode>)
    ensures
        r == spec_full_game_mode(code),
{
    let m = code & 0x0F;
    let hardcore = (code & 0xF0) > 0;
    if m == 0 {
        Some(FullGameMode { mode: GameMode::Survival, hardcore })
    } else if m == 1 {
        Some(FullGameMode { mode: GameMode::Creative, hardcore })
    } else if m == 2 {
        Some(FullGameMode { mode: GameMode::Adventure, hardcore })
    } else if m == 3 {
        Some(FullGameMode { mode: GameMode::Spectator, hardcore })
    } else {
        None
    }
}

/// The dimension id, a plain 32-bit value on the wire.
pub open spec fn spec_dimension(v: i32) -> Option<DimensionId> {
    if v == -1 {
        Some(DimensionId::Nether)
    } else if v == 0 {
        Some(DimensionId::Overworld)
    } else if v == 1 {
        Some(DimensionId::End)
    } else {
        None
    }
}

fn dimension_of(v: i32) -> (r: Option<DimensionId>)
    ensures
        r == spec_dimension(v),
{
    if v == -1 {
        Some(DimensionId::Nether)
    } else if v == 0 {
        Some(DimensionId::Overworld)
    } else if v == 1 {
        Some(DimensionId::End)
    } else {
        None
    }
}

pub open spec fn spec_sp_spawn_player(b: Seq<u8>, i: int) -> Option<ServerPacketModel> {
    match spec_parse_varint(b, i, 5) {
        Some((entity_id, j1)) => match spec_parse_u128(b, j1) {
            Some((uuid, j2)) => match spec_parse_u64(b, j2) {
                Some((x, j3)) => match spec_parse_u64(b, j3) {
                    Some((y, j4)) => match spec_parse_u64(b, j4) {
                        Some((z, j5)) => match spec_parse_u8(b, j5) {
                            Some((yaw, j6)) => match spec_parse_u8(b, j6) {
                                Some((pitch, _)) => Some(
                                    ServerPacketModel::SpawnPlayer {
                                        entity_id: entity_id as i32,
                                        uuid,
                                        x,
                                        y,
                                        z,
                                        yaw,
                                        pitch,
                                    },
                                ),
                                None => None,
                            },
                            None => None,
                        },
                        None => None,
                    },
                    None => None,
                },
                None => None,
            },
            None => None,
        },
        None => None,
    }
}

pub open spec fn spec_sp_block_change(b: Seq<u8>, i: int) -> Option<ServerPacketModel> {
    match spec_parse_u64(b, i) {
        Some((position, j1)) => match spec_parse_u16(b, j1) {
            Some((block_state, _)) => Some(
                ServerPacketModel::BlockChange { position, block_state },
            ),
            None => None,
        },
        None => None,
    }
}

pub open spec fn spec_sp_chat(b: Seq<u8>, i: int) -> Option<ServerPacketModel> {
    match spec_parse_string(b, i) {
        Some((json, j1)) => {
            if crate::jsonval::json_parseable(json) {
                match spec_parse_u8(b, j1) {
                    Some((position, _)) => Some(ServerPacketModel::ChatMessage { json, position }),
                    None => None,
                }
            } else {
                None
            }
        },
        None => None,
    }
}

pub open spec fn spec_sp_mbc(b: Seq<u8>, i: int) -> Option<ServerPacketModel> {
    match spec_parse_u32(b, i) {
        Some((cx, j1)) => match spec_parse_u32(b, j1) {
            Some((cz, j2)) => match spec_parse_varint(b, j2, 5) {
                Some((cnt, j3)) => match spec_parse_list::<MultiBlockChangeRecord>(
                    b,
                    j3,
                    spec_list_len(cnt),
                ) {
                    Some((records, _)) => Some(
                        ServerPacketModel::MultiBlockChange {
                            chunk_x: cx as i32,
                            chunk_z: cz as i32,
                            records,
                        },
                    ),
                    None => None,
                },
                None => None,
            },
            None => None,
        },
        None => None,
    }
}

pub open spec fn spec_sp_entity_status(b: Seq<u8>, i: int) -> Option<ServerPacketModel> {
    match spec_parse_u32(b, i) {
        Some((entity_id, j1)) => match spec_parse_u8(b, j1) {
            Some((status, _)) => Some(
                ServerPacketModel::EntityStatus { entity_id: entity_id as i32, status },
            ),
            None => None,
        },
        None => None,
    }
}

pub open spec fn spec_sp_unload_chunk(b: Seq<u8>, i: int) -> Option<ServerPacketModel> {
    match spec_parse_u32(b, i) {
        Some((cx, j1)) => match spec_parse_u32(b, j1) {
            Some((cz, _)) => Some(
                ServerPacketModel::UnloadChunk { chunk_x: cx as i32, chunk_z: cz as i32 },
            ),
            None => None,
        },
        None => None,
    }
}

pub open spec fn spec_sp_chunk_data(b: Seq<u8>, i: int) -> Option<ServerPacketModel> {
    match spec_parse_u32(b, i) {
        Some((cx, j1)) => match spec_parse_u32(b, j1) {
            Some((cz, j2)) => match spec_parse_bool(b, j2) {
                Some((full_chunk, j3)) => match spec_parse_varint(b, j3, 5) {
                    Some((bitmask, j4)) => match spec_parse_blob(b, j4) {
                        Some((data, _)) => Some(
                            ServerPacketModel::ChunkData {
                                chunk_x: cx as i32,
                                chunk_z: cz as i32,
                                full_chunk,
                                primary_bitmask: bitmask as i32,
                                data,
                            },
                        ),
                        None => None,
                    },
                    None => None,
                },
                None => None,
            },
            None => None,
        },
        None => None,
    }
}

pub open spec fn spec_sp_join_game(b: Seq<u8>, i: int) -> Option<ServerPacketModel> {
    match spec_parse_u32(b, i) {
        Some((entity_id, j1)) => match spec_parse_u8(b, j1) {
            Some((gm_code, j2)) => match spec_full_game_mode(gm_code) {
                Some(game_mode) => match spec_parse_u32(b, j2) {
                    Some((dim_raw, j3)) => match spec_dimension(dim_raw as i32) {
                        Some(dimension) => match spec_parse_varint(b, j3, 5) {
                            Some((diff_raw, j4)) => match spec_difficulty(diff_raw) {
                                Some(difficulty) => match spec_parse_u8(b, j4) {
                                    Some((max_players, j5)) => match spec_parse_string(b, j5) {
                                        Some((level_type, j6)) => match spec_parse_bool(b, j6) {
                                            Some((reduced_debug_info, _)) => Some(
                                                ServerPacketModel::JoinGame {
                                                    entity_id: entity_id as i32,
                                                    game_mode,
                                                    dimension,
                                                    difficulty,
                                                    max_players,
                                                    level_type,
                                                    reduced_debug_info,
                                                },
                                            ),
                                            None => None,
                                        },
                                        None => None,
                                    },
                                    None => None,
                                },
                                None => None,
                            },
                            None => None,
                        },
                        None => None,
                    },
                    None => None,
                },
                None => None,
            },
            None => None,
        },
        None => None,
    }
}

pub open spec fn spec_sp_entity_relative_move(b: Seq<u8>, i: int) -> Option<ServerPacketModel> {
    match spec_parse_varint(b, i, 5) {
        Some((entity_id, j1)) => match spec_parse_u16(b, j1) {
            Some((dx, j2)) => match spec_parse_u16(b, j2) {
                Some((dy, j3)) => match spec_parse_u16(b, j3) {
                    Some((dz, j4)) => match spec_parse_bool(b, j4) {
                        Some((on_ground, _)) => Some(
                            ServerPacketModel::EntityRelativeMove {
                                entity_id: entity_id as i32,
                                delta_x: dx as i16,
                                delta_y: dy as i16,
                                delta_z: dz as i16,
                                on_ground,
                            },
                        ),
                        None => None,
                    },
                    None => None,
                },
                None => None,
            },
            None => None,
        },
        None => None,
    }
}

pub open spec fn spec_sp_entity_look(b: Seq<u8>, i: int) -> Option<ServerPacketModel> {
    match spec_parse_varint(b, i, 5) {
        Some((entity_id, j1)) => match spec_parse_u8(b, j1) {
            Some((yaw, j2)) => match spec_parse_u8(b, j2) {
                Some((pitch, j3)) => match spec_parse_bool(b, j3) {
                    Some((on_ground, _)) => Some(
                        ServerPacketModel::EntityLook {
                            entity_id: entity_id as i32,
                            yaw,
                            pitch,
                            on_ground,
                        },
                    ),
                    None => None,
                },
                None => None,
            },
            None => None,
        },
        None => None,
    }
}

pub open spec fn spec_sp_player_abilities(b: Seq<u8>, i: int) -> Option<ServerPacketModel> {
    match spec_parse_u8(b, i) {
        Some((flags, j1)) => match spec_parse_u32(b, j1) {
            Some((flying_speed, j2)) => match spec_parse_u32(b, j2) {
                Some((fov, _)) => Some(
                    ServerPacketModel::PlayerAbilities { flags, flying_speed, fov },
                ),
                None => None,
            },
            None => None,
        },
        None => None,
    }
}

/// Actions 0 (add players) and 4 (remove players) are understood; the
/// update actions in between have no variant here and fail the decode.
pub open spec fn spec_sp_player_list(b: Seq<u8>, i: int) -> Option<ServerPacketModel> {
    match spec_parse_varint(b, i, 5) {
        Some((action, j1)) => match spec_parse_varint(b, j1, 5) {
            Some((cnt, j2)) => {
                if action == 0 {
                    match spec_parse_list::<AddPlayerModel>(b, j2, spec_list_len(cnt)) {
                        Some((players, _)) => Some(
                            ServerPacketModel::PlayerList {
                                packet: PlayerListPacketModel::AddPlayers { players },
                            },
                        ),
                        None => None,
                    }
                } else if action == 4 {
                    match spec_parse_list::<RemovePlayer>(b, j2, spec_list_len(cnt)) {
                        Some((players, _)) => Some(
                            ServerPacketModel::PlayerList {
                                packet: PlayerListPacketModel::RemovePlayers { players },
                            },
                        ),
                        None => None,
                    }
                } else {
                    None
                }
            },
            None => None,
        },
        None => None,
    }
}

pub open spec fn spec_sp_ppl(b: Seq<u8>, i: int) -> Option<ServerPacketModel> {
    match spec_parse_u64(b, i) {
        Some((x, j1)) => match spec_parse_u64(b, j1) {
            Some((y, j2)) => match spec_parse_u64(b, j2) {
                Some((z, j3)) => match spec_parse_u32(b, j3) {
                    Some((yaw, j4)) => match spec_parse_u32(b, j4) {
                        Some((pitch, j5)) => match spec_parse_u8(b, j5) {
                            Some((flags, j6)) => match spec_parse_varint(b, j6, 5) {
                                Some((teleport_id, _)) => Some(
                                    ServerPacketModel::PlayerPositionAndLook {
                                        x,
                                        y,
                                        z,
                                        yaw,
                                        pitch,
                                        flags,
                                        teleport_id: teleport_id as i32,
                                    },
                                ),
                                None => None,
                            },
                            None => None,
                        },
                        None => None,
                    },
                    None => None,
                },
                None => None,
            },
            None => None,
        },
        None => None,
    }
}

pub open spec fn spec_sp_unlock_recipes(b: Seq<u8>, i: int) -> Option<ServerPacketModel> {
    match spec_parse_varint(b, i, 5) {
        Some((action, j1)) => match spec_parse_bool(b, j1) {
            Some((book_open, j2)) => match spec_parse_bool(b, j2) {
                Some((filtering, _)) => Some(
                    ServerPacketModel::UnlockRecipes { action: action as i32, book_open, filtering },
                ),
                None => None,
            },
            None => None,
        },
        None => None,
    }
}

pub open spec fn spec_sp_entity_velocity(b: Seq<u8>, i: int) -> Option<ServerPacketModel> {
    match spec_parse_varint(b, i, 5) {
        Some((entity_id, j1)) => match spec_parse_u16(b, j1) {
            Some((vx, j2)) => match spec_parse_u16(b, j2) {
                Some((vy, j3)) => match spec_parse_u16(b, j3) {
                    Some((vz, _)) => Some(
                        ServerPacketModel::EntityVelocity {
                            entity_id: entity_id as i32,
                            velocity_x: vx as i16,
                            velocity_y: vy as i16,
                            velocity_z: vz as i16,
                        },
                    ),
                    None => None,
                },
                None => None,
            },
            None => None,
        },
        None => None,
    }
}

pub open spec fn spec_sp_update_health(b: Seq<u8>, i: int) -> Option<ServerPacketModel> {
    match spec_parse_u32(b, i) {
        Some((health, j1)) => match spec_parse_varint(b, j1, 5) {
            Some((food, j2)) => match spec_parse_u32(b, j2) {
                Some((saturation, _)) => Some(
                    ServerPacketModel::UpdateHealth { health, food: food as i32, saturation },
                ),
                None => None,
            },
            None => None,
        },
        None => None,
    }
}

pub open spec fn spec_sp_time_update(b: Seq<u8>, i: int) -> Option<ServerPacketModel> {
    match spec_parse_u64(b, i) {
        Some((world_age, j1)) => match spec_parse_u64(b, j1) {
            Some((time_of_day, _)) => Some(
                ServerPacketModel::TimeUpdate {
                    world_age: world_age as i64,
                    time_of_day: time_of_day as i64,
                },
            ),
            None => None,
        },
        None => None,
    }
}


/// Dispatch on the leading ordinal: the fields of the selected variant
/// follow at offset `i`.
pub open spec fn spec_parse_server_body(b: Seq<u8>, i: int, ord: u32) -> Option<
    ServerPacketModel,
> {
    if ord == 5 {
        spec_sp_spawn_player(b, i)
    } else if ord == 11 {
        spec_sp_block_change(b, i)
    } else if ord == 13 {
        match spec_parse_varint(b, i, 5) {
            Some((v, _)) => match spec_difficulty(v) {
                Some(difficulty) => Some(ServerPacketModel::ServerDifficulty { difficulty }),
                None => None,
            },
            None => None,
        }
    } else if ord == 15 {
        spec_sp_chat(b, i)
    } else if ord == 16 {
        spec_sp_mbc(b, i)
    } else if ord == 24 {
        match spec_parse_string(b, i) {
            Some((channel, _)) => Some(ServerPacketModel::PluginMessage { channel }),
            None => None,
        }
    } else if ord == 27 {
        spec_sp_entity_status(b, i)
    } else if ord == 29 {
        spec_sp_unload_chunk(b, i)
    } else if ord == 31 {
        match spec_parse_u64(b, i) {
            Some((id, _)) => Some(ServerPacketModel::KeepAlive { id: id as i64 }),
            None => None,
        }
    } else if ord == 32 {
        spec_sp_chunk_data(b, i)
    } else if ord == 35 {
        spec_sp_join_game(b, i)
    } else if ord == 38 {
        spec_sp_entity_relative_move(b, i)
    } else if ord == 39 {
        match spec_parse_varint(b, i, 5) {
            Some((v, _)) => Some(
                ServerPacketModel::EntityLookAndRelativeMove { entity_id: v as i32 },
            ),
            None => None,
        }
    } else if ord == 40 {
        spec_sp_entity_look(b, i)
    } else if ord == 44 {
        spec_sp_player_abilities(b, i)
    } else if ord == 46 {
        spec_sp_player_list(b, i)
    } else if ord == 47 {
        spec_sp_ppl(b, i)
    } else if ord == 49 {
        spec_sp_unlock_recipes(b, i)
    } else if ord == 54 {
        match spec_parse_varint(b, i, 5) {
            Some((v, j1)) => match spec_parse_u8(b, j1) {
                Some((yaw, _)) => Some(
                    ServerPacketModel::EntityHeadLook { entity_id: v as i32, yaw },
                ),
                None => None,
            },
            None => None,
        }
    } else if ord == 58 {
        match spec_parse_u8(b, i) {
            Some((slot, _)) => Some(ServerPacketModel::HeldItemChange { slot }),
            None => None,
        }
    } else if ord == 60 {
        match spec_parse_varint(b, i, 5) {
            Some((v, _)) => Some(ServerPacketModel::EntityMetadata { entity_id: v as i32 }),
            None => None,
        }
    } else if ord == 62 {
        spec_sp_entity_velocity(b, i)
    } else if ord == 63 {
        match spec_parse_varint(b, i, 5) {
            Some((v, _)) => Some(ServerPacketModel::EntityEquipment { entity_id: v as i32 }),
            None => None,
        }
    } else if ord == 65 {
        spec_sp_update_health(b, i)
    } else if ord == 71 {
        spec_sp_time_update(b, i)
    } else if ord == 78 {
        match spec_parse_varint(b, i, 5) {
            Some((v, _)) => Some(ServerPacketModel::EntityProperties { entity_id: v as i32 }),
            None => None,
        }
    } else {
        spec_empty_server_packet(ord)
    }
}

/// Parse a whole server-packet frame: ordinal, then the variant's
/// fields.  Trailing bytes beyond the last field are ignored, as the
/// frame is already length-delimited.
pub open spec fn spec_parse_server_packet(b: Seq<u8>) -> Option<ServerPacketModel> {
    match spec_parse_varint(b, 0, 5) {
        Some((ord, i)) => spec_parse_server_body(b, i, ord),
        None => None,
    }
}

/// Decode a server-packet frame.  An unknown ordinal, a field that
/// cannot carry its wire value, or a frame that ends early is a fatal
/// decode error.
fn decode_sp_spawn_player(frame: &Vec<u8>, pos: &mut usize) -> (r: Result<
    ServerPacket,
    DecodeError,
>)
    requires
        *old(pos) <= frame@.len(),
    ensures
        match spec_sp_spawn_player(frame@, *old(pos) as int) {
            Some(m) => r matches Ok(p) && p@ == m,
            None => r is Err,
        },
{
        let entity_id = match read_varint_i32(frame, pos) {
            Ok(v) => v,
            Err(e) => { return Err(e) },
        };
        let uuid = match read_u128(frame, pos) {
            Ok(v) => v,
            Err(e) => { return Err(e) },
        };
        let x = match read_u64(frame, pos) {
            Ok(v) => v,
            Err(e) => { return Err(e) },
        };
        let y = match read_u64(frame, pos) {
            Ok(v) => v,
            Err(e) => { return Err(e) },
        };
        let z = match read_u64(frame, pos) {
            Ok(v) => v,
            Err(e) => { return Err(e) },
        };
        let yaw = match read_u8(frame, pos) {
            Ok(v) => v,
            Err(e) => { return Err(e) },
        };
        let pitch = match read_u8(frame, pos) {
            Ok(v) => v,
            Err(e) => { return Err(e) },
        };
        Ok(ServerPacket::SpawnPlayer { entity_id, uuid, x, y, z, yaw, pitch })
}
fn decode_sp_block_change(frame: &Vec<u8>, pos: &mut usize) -> (r: Result<
    ServerPacket,
    DecodeError,
>)
    requires
        *old(pos) <= frame@.len(),
    ensures
        match spec_sp_block_change(frame@, *old(pos) as int) {
            Some(m) => r matches Ok(p) && p@ == m,
            None => r is Err,
        },
{
        let position = match read_u64(frame, pos) {
            Ok(v) => v,
            Err(e) => { return Err(e) },
        };
        let block_state = match read_u16(frame, pos) {
            Ok(v) => v,
            Err(e) => { return Err(e) },
        };
        Ok(ServerPacket::BlockChange { position, block_state })
}
fn decode_sp_chat(frame: &Vec<u8>, pos: &mut usize) -> (r: Result<
    ServerPacket,
    DecodeError,
>)
    requires
        *old(pos) <= frame@.len(),
    ensures
        match spec_sp_chat(frame@, *old(pos) as int) {
            Some(m) => r matches Ok(p) && p@ == m,
            None => r is Err,
        },
{
        let json = match read_string(frame, pos) {
            Ok(v) => v,
            Err(e) => { return Err(e) },
        };
        if !crate::jsonval::json_ok(&json) {
            return Err(DecodeError::BadShape);
        }
        let position = match read_u8(frame, pos) {
            Ok(v) => v,
            Err(e) => { return Err(e) },
        };
        Ok(ServerPacket::ChatMessage { json, position })
}
fn decode_sp_mbc(frame: &Vec<u8>, pos: &mut usize) -> (r: Result<
    ServerPacket,
    DecodeError,
>)
    requires
        *old(pos) <= frame@.len(),
    ensures
        match spec_sp_mbc(frame@, *old(pos) as int) {
            Some(m) => r matches Ok(p) && p@ == m,
            None => r is Err,
        },
{
        let chunk_x = match read_i32(frame, pos) {
            Ok(v) => v,
            Err(e) => { return Err(e) },
        };
        let chunk_z = match read_i32(frame, pos) {
            Ok(v) => v,
            Err(e) => { return Err(e) },
        };
        let cnt = match read_varint_u32(frame, pos) {
            Ok(v) => v,
            Err(e) => { return Err(e) },
        };
        proof {
            crate::wire::lemma_u32_i32_sign(cnt);
        }
        let n: u32 = if (cnt as i32) < 0 {
            0
        } else {
            cnt
        };
        let records = match read_mbc_records(frame, pos, n) {
            Ok(v) => v,
            Err(e) => { return Err(e) },
        };
        Ok(ServerPacket::MultiBlockChange { chunk_x, chunk_z, records })
}
fn decode_sp_entity_status(frame: &Vec<u8>, pos: &mut usize) -> (r: Result<
    ServerPacket,
    DecodeError,
>)
    requires
        *old(pos) <= frame@.len(),
    ensures
        match spec_sp_entity_status(frame@, *old(pos) as int) {
            Some(m) => r matches Ok(p) && p@ == m,
            None => r is Err,
        },
{
        let entity_id = match read_i32(frame, pos) {
            Ok(v) => v,
            Err(e) => { return Err(e) },
        };
        let status = match read_u8(frame, pos) {
            Ok(v) => v,
            Err(e) => { return Err(e) },
        };
        Ok(ServerPacket::EntityStatus { entity_id, status })
}
fn decode_sp_unload_chunk(frame: &Vec<u8>, pos: &mut usize) -> (r: Result<
    ServerPacket,
    DecodeError,
>)
    requires
        *old(pos) <= frame@.len(),
    ensures
        match spec_sp_unload_chunk(frame@, *old(pos) as int) {
            Some(m) => r matches Ok(p) && p@ == m,
            None => r is Err,
        },
{
        let chunk_x = match read_i32(frame, pos) {
            Ok(v) => v,
            Err(e) => { return Err(e) },
        };
        let chunk_z = match read_i32(frame, pos) {
            Ok(v) => v,
            Err(e) => { return Err(e) },
        };
        Ok(ServerPacket::UnloadChunk { chunk_x, chunk_z })
}
fn decode_sp_chunk_data(frame: &Vec<u8>, pos: &mut usize) -> (r: Result<
    ServerPacket,
    DecodeError,
>)
    requires
        *old(pos) <= frame@.len(),
    ensures
        match spec_sp_chunk_data(frame@, *old(pos) as int) {
            Some(m) => r matches Ok(p) && p@ == m,
            None => r is Err,
        },
{
        let chunk_x = match read_i32(frame, pos) {
            Ok(v) => v,
            Err(e) => { return Err(e) },
        };
        let chunk_z = match read_i32(frame, pos) {
            Ok(v) => v,
            Err(e) => { return Err(e) },
        };
        let full_chunk = match read_bool(frame, pos) {
            Ok(v) => v,
            Err(e) => { return Err(e) },
        };
        let primary_bitmask = match read_varint_i32(frame, pos) {
            Ok(v) => v,
            Err(e) => { return Err(e) },
        };
        let data = match read_blob(frame, pos) {
            Ok(v) => v,
            Err(e) => { return Err(e) },
        };
        Ok(ServerPacket::ChunkData { chunk_x, chunk_z, full_chunk, primary_bitmask, data })
}
fn decode_sp_join_game(frame: &Vec<u8>, pos: &mut usize) -> (r: Result<
    ServerPacket,
    DecodeError,
>)
    requires
        *old(pos) <= frame@.len(),
    ensures
        match spec_sp_join_game(frame@, *old(pos) as int) {
            Some(m) => r matches Ok(p) && p@ == m,
            None => r is Err,
        },
{
        let entity_id = match read_i32(frame, pos) {
            Ok(v) => v,
            Err(e) => { return Err(e) },
        };
        let gm_code = match read_u8(frame, pos) {
            Ok(v) => v,
            Err(e) => { return Err(e) },
        };
        let game_mode = match full_game_mode_of(gm_code) {
            Some(v) => v,
            None => { return Err(DecodeError::BadShape) },
        };
        let dim_raw = match read_i32(frame, pos) {
            Ok(v) => v,
            Err(e) => { return Err(e) },
        };
        let dimension = match dimension_of(dim_raw) {
            Some(v) => v,
            None => { return Err(DecodeError::BadShape) },
        };
        let diff_raw = match read_varint_u32(frame, pos) {
            Ok(v) => v,
            Err(e) => { return Err(e) },
        };
        let difficulty = match difficulty_of(diff_raw) {
            Some(v) => v,
            None => { return Err(DecodeError::BadShape) },
        };
        let max_players = match read_u8(frame, pos) {
            Ok(v) => v,
            Err(e) => { return Err(e) },
        };
        let level_type = match read_string(frame, pos) {
            Ok(v) => v,
            Err(e) => { return Err(e) },
        };
        let reduced_debug_info = match read_bool(frame, pos) {
            Ok(v) => v,
            Err(e) => { return Err(e) },
        };
        Ok(
            ServerPacket::JoinGame {
                entity_id,
                game_mode,
                dimension,
                difficulty,
                max_players,
                level_type,
                reduced_debug_info,
            },
        )
}
fn decode_sp_entity_relative_move(frame: &Vec<u8>, pos: &mut usize) -> (r: Result<
    ServerPacket,
    DecodeError,
>)
    requires
        *old(pos) <= frame@.len(),
    ensures
        match spec_sp_entity_relative_move(frame@, *old(pos) as int) {
            Some(m) => r matches Ok(p) && p@ == m,
            None => r is Err,
        },
{
        let entity_id = match read_varint_i32(frame, pos) {
            Ok(v) => v,
            Err(e) => { return Err(e) },
        };
        let delta_x = match read_i16(frame, pos) {
            Ok(v) => v,
            Err(e) => { return Err(e) },
        };
        let delta_y = match read_i16(frame, pos) {
            Ok(v) => v,
            Err(e) => { return Err(e) },
        };
        let delta_z = match read_i16(frame, pos) {
            Ok(v) => v,
            Err(e) => { return Err(e) },
        };
        let on_ground = match read_bool(frame, pos) {
            Ok(v) => v,
            Err(e) => { return Err(e) },
        };
        Ok(ServerPacket::EntityRelativeMove { entity_id, delta_x, delta_y, delta_z, on_ground })
}
fn decode_sp_entity_look(frame: &Vec<u8>, pos: &mut usize) -> (r: Result<
    ServerPacket,
    DecodeError,
>)
    requires
        *old(pos) <= frame@.len(),
    ensures
        match spec_sp_entity_look(frame@, *old(pos) as int) {
            Some(m) => r matches Ok(p) && p@ == m,
            None => r is Err,
        },
{
        let entity_id = match read_varint_i32(frame, pos) {
            Ok(v) => v,
            Err(e) => { return Err(e) },
        };
        let yaw = match read_u8(frame, pos) {
            Ok(v) => v,
            Err(e) => { return Err(e) },
        };
        let pitch = match read_u8(frame, pos) {
            Ok(v) => v,
            Err(e) => { return Err(e) },
        };
        let on_ground = match read_bool(frame, pos) {
            Ok(v) => v,
            Err(e) => { return Err(e) },
        };
        Ok(ServerPacket::EntityLook { entity_id, yaw, pitch, on_ground })
}
fn decode_sp_player_abilities(frame: &Vec<u8>, pos: &mut usize) -> (r: Result<
    ServerPacket,
    DecodeError,
>)
    requires
        *old(pos) <= frame@.len(),
    ensures
        match spec_sp_player_abilities(frame@, *old(pos) as int) {
            Some(m) => r matches Ok(p) && p@ == m,
            None => r is Err,
        },
{
        let flags = match read_u8(frame, pos) {
            Ok(v) => v,
            Err(e) => { return Err(e) },
        };
        let flying_speed = match read_u32(frame, pos) {
            Ok(v) => v,
            Err(e) => { return Err(e) },
        };
        let fov = match read_u32(frame, pos) {
            Ok(v) => v,
            Err(e) => { return Err(e) },
        };
        Ok(ServerPacket::PlayerAbilities { flags, flying_speed, fov })
}
fn decode_sp_player_list(frame: &Vec<u8>, pos: &mut usize) -> (r: Result<
    ServerPacket,
    DecodeError,
>)
    requires
        *old(pos) <= frame@.len(),
    ensures
        match spec_sp_player_list(frame@, *old(pos) as int) {
            Some(m) => r matches Ok(p) && p@ == m,
            None => r is Err,
        },
{
        let action = match read_varint_u32(frame, pos) {
            Ok(v) => v,
            Err(e) => { return Err(e) },
        };
        let cnt = match read_varint_u32(frame, pos) {
            Ok(v) => v,
            Err(e) => { return Err(e) },
        };
        proof {
            crate::wire::lemma_u32_i32_sign(cnt);
        }
        let n: u32 = if (cnt as i32) < 0 {
            0
        } else {
            cnt
        };
        if action == 0 {
            let players = match read_add_players(frame, pos, n) {
                Ok(v) => v,
                Err(e) => { return Err(e) },
            };
            Ok(ServerPacket::PlayerList { packet: PlayerListPacket::AddPlayers { players } })
        } else if action == 4 {
            let players = match read_remove_players(frame, pos, n) {
                Ok(v) => v,
                Err(e) => { return Err(e) },
            };
            Ok(ServerPacket::PlayerList { packet: PlayerListPacket::RemovePlayers { players } })
        } else {
            Err(DecodeError::BadShape)
        }
}
fn decode_sp_ppl(frame: &Vec<u8>, pos: &mut usize) -> (r: Result<
    ServerPacket,
    DecodeError,
>)
    requires
        *old(pos) <= frame@.len(),
    ensures
        match spec_sp_ppl(frame@, *old(pos) as int) {
            Some(m) => r matches Ok(p) && p@ == m,
            None => r is Err,
        },
{
        let x = match read_u64(frame, pos) {
            Ok(v) => v,
            Err(e) => { return Err(e) },
        };
        let y = match read_u64(frame, pos) {
            Ok(v) => v,
            Err(e) => { return Err(e) },
        };
        let z = match read_u64(frame, pos) {
            Ok(v) => v,
            Err(e) => { return Err(e) },
        };
        let yaw = match read_u32(frame, pos) {
            Ok(v) => v,
            Err(e) => { return Err(e) },
        };
        let pitch = match read_u32(frame, pos) {
            Ok(v) => v,
            Err(e) => { return Err(e) },
        };
        let flags = match read_u8(frame, pos) {
            Ok(v) => v,
            Err(e) => { return Err(e) },
        };
        let teleport_id = match read_varint_i32(frame, pos) {
            Ok(v) => v,
            Err(e) => { return Err(e) },
        };
        Ok(ServerPacket::PlayerPositionAndLook { x, y, z, yaw, pitch, flags, teleport_id })
}
fn decode_sp_unlock_recipes(frame: &Vec<u8>, pos: &mut usize) -> (r: Result<
    ServerPacket,
    DecodeError,
>)
    requires
        *old(pos) <= frame@.len(),
    ensures
        match spec_sp_unlock_recipes(frame@, *old(pos) as int) {
            Some(m) => r matches Ok(p) && p@ == m,
            None => r is Err,
        },
{
        let action = match read_varint_i32(frame, pos) {
            Ok(v) => v,
            Err(e) => { return Err(e) },
        };
        let book_open = match read_bool(frame, pos) {
            Ok(v) => v,
            Err(e) => { return Err(e) },
        };
        let filtering = match read_bool(frame, pos) {
            Ok(v) => v,
            Err(e) => { return Err(e) },
        };
        Ok(ServerPacket::UnlockRecipes { action, book_open, filtering })
}
fn decode_sp_entity_velocity(frame: &Vec<u8>, pos: &mut usize) -> (r: Result<
    ServerPacket,
    DecodeError,
>)
    requires
        *old(pos) <= frame@.len(),
    ensures
        match spec_sp_entity_velocity(frame@, *old(pos) as int) {
            Some(m) => r matches Ok(p) && p@ == m,
            None => r is Err,
        },
{
        let entity_id = match read_varint_i32(frame, pos) {
            Ok(v) => v,
            Err(e) => { return Err(e) },
        };
        let velocity_x = match read_i16(frame, pos) {
            Ok(v) => v,
            Err(e) => { return Err(e) },
        };
        let velocity_y = match read_i16(frame, pos) {
            Ok(v) => v,
            Err(e) => { return Err(e) },
        };
        let velocity_z = match read_i16(frame, pos) {
            Ok(v) => v,
            Err(e) => { return Err(e) },
        };
        Ok(ServerPacket::EntityVelocity { entity_id, velocity_x, velocity_y, velocity_z })
}
fn decode_sp_update_health(frame: &Vec<u8>, pos: &mut usize) -> (r: Result<
    ServerPacket,
    DecodeError,
>)
    requires
        *old(pos) <= frame@.len(),
    ensures
        match spec_sp_update_health(frame@, *old(pos) as int) {
            Some(m) => r matches Ok(p) && p@ == m,
            None => r is Err,
        },
{
        let health = match read_u32(frame, pos) {
            Ok(v) => v,
            Err(e) => { return Err(e) },
        };
        let food = match read_varint_i32(frame, pos) {
            Ok(v) => v,
            Err(e) => { return Err(e) },
        };
        let saturation = match read_u32(frame, pos) {
            Ok(v) => v,
            Err(e) => { return Err(e) },
        };
        Ok(ServerPacket::UpdateHealth { health, food, saturation })
}
fn decode_sp_time_update(frame: &Vec<u8>, pos: &mut usize) -> (r: Result<
    ServerPacket,
    DecodeError,
>)
    requires
        *old(pos) <= frame@.len(),
    ensures
        match spec_sp_time_update(frame@, *old(pos) as int) {
            Some(m) => r matches Ok(p) && p@ == m,
            None => r is Err,
        },
{
        let world_age = match read_i64(frame, pos) {
            Ok(v) => v,
            Err(e) => { return Err(e) },
        };
        let time_of_day = match read_i64(frame, pos) {
            Ok(v) => v,
            Err(e) => { return Err(e) },
        };
        Ok(ServerPacket::TimeUpdate { world_age, time_of_day })
}
pub fn decode_server_packet(frame: &Vec<u8>) -> (r: Result<ServerPacket, DecodeError>)
    ensures
        match spec_parse_server_packet(frame@) {
            Some(m) => r matches Ok(p) && p@ == m,
            None => r is Err,
        },
{
    let mut pos: usize = 0;
    let ord = match read_varint_u32(frame, &mut pos) {
        Ok(v) => v,
        Err(e) => { return Err(e) },
    };
    if ord == 5 {
        decode_sp_spawn_player(frame, &mut pos)
    } else if ord == 11 {
        decode_sp_block_change(frame, &mut pos)
    } else if ord == 13 {
        let v = match read_varint_u32(frame, &mut pos) {
            Ok(v) => v,
            Err(e) => { return Err(e) },
        };
        match difficulty_of(v) {
            Some(difficulty) => Ok(ServerPacket::ServerDifficulty { difficulty }),
            None => Err(DecodeError::BadShape),
        }
    } else if ord == 15 {
        decode_sp_chat(frame, &mut pos)
    } else if ord == 16 {
        decode_sp_mbc(frame, &mut pos)
    } else if ord == 24 {
        let channel = match read_string(frame, &mut pos) {
            Ok(v) => v,
            Err(e) => { return Err(e) },
        };
        Ok(ServerPacket::PluginMessage { channel })
    } else if ord == 27 {
        decode_sp_entity_status(frame, &mut pos)
    } else if ord == 29 {
        decode_sp_unload_chunk(frame, &mut pos)
    } else if ord == 31 {
        let id = match read_i64(frame, &mut pos) {
            Ok(v) => v,
            Err(e) => { return Err(e) },
        };
        Ok(ServerPacket::KeepAlive { id })
    } else if ord == 32 {
        decode_sp_chunk_data(frame, &mut pos)
    } else if ord == 35 {
        decode_sp_join_game(frame, &mut pos)
    } else if ord == 38 {
        decode_sp_entity_relative_move(frame, &mut pos)
    } else if ord == 39 {
        let entity_id = match read_varint_i32(frame, &mut pos) {
            Ok(v) => v,
            Err(e) => { return Err(e) },
        };
        Ok(ServerPacket::EntityLookAndRelativeMove { entity_id })
    } else if ord == 40 {
        decode_sp_entity_look(frame, &mut pos)
    } else if ord == 44 {
        decode_sp_player_abilities(frame, &mut pos)
    } else if ord == 46 {
        decode_sp_player_list(frame, &mut pos)
    } else if ord == 47 {
        decode_sp_ppl(frame, &mut pos)
    } else if ord == 49 {
        decode_sp_unlock_recipes(frame, &mut pos)
    } else if ord == 54 {
        let entity_id = match read_varint_i32(frame, &mut pos) {
            Ok(v) => v,
            Err(e) => { return Err(e) },
        };
        let yaw = match read_u8(frame, &mut pos) {
            Ok(v) => v,
            Err(e) => { return Err(e) },
        };
        Ok(ServerPacket::EntityHeadLook { entity_id, yaw })
    } else if ord == 58 {
        let slot = match read_u8(frame, &mut pos) {
            Ok(v) => v,
            Err(e) => { return Err(e) },
        };
        Ok(ServerPacket::HeldItemChange { slot })
    } else if ord == 60 {
        let entity_id = match read_varint_i32(frame, &mut pos) {
            Ok(v) => v,
            Err(e) => { return Err(e) },
        };
        Ok(ServerPacket::EntityMetadata { entity_id })
    } else if ord == 62 {
        decode_sp_entity_velocity(frame, &mut pos)
    } else if ord == 63 {
        let entity_id = match read_varint_i32(frame, &mut pos) {
            Ok(v) => v,
            Err(e) => { return Err(e) },
        };
        Ok(ServerPacket::EntityEquipment { entity_id })
    } else if ord == 65 {
        decode_sp_update_health(frame, &mut pos)
    } else if ord == 71 {
        decode_sp_time_update(frame, &mut pos)
    } else if ord == 78 {
        let entity_id = match read_varint_i32(frame, &mut pos) {
            Ok(v) => v,
            Err(e) => { return Err(e) },
        };
        Ok(ServerPacket::EntityProperties { entity_id })
    } else {
        match empty_server_packet(ord) {
            Some(p) => Ok(p),
            None => Err(DecodeError::UnknownOrdinal),
        }
        }
}

// ---------------------------------------------------------------------
// Round trips: every client-outbound variant, encoded then decoded
// through the matching inbound schema, comes back field-wise equal.
// ---------------------------------------------------------------------

/// The string fields the round trip needs to be well-formed UTF-8.
pub open spec fn client_packet_utf8(p: ClientPacketModel) -> bool {
    match p {
        ClientPacketModel::ChatMessage { message } => crate::wire::utf8_ok(message),
        ClientPacketModel::ClientSettings { locale, .. } => crate::wire::utf8_ok(locale),
        _ => true,
    }
}

/// Every client-outbound play packet survives its round trip: parsing
/// the emitted frame yields the same variant with the same fields.
pub proof fn lemma_client_packet_round_trip(m: ClientPacketModel)
    requires
        client_packet_valid(m),
        client_packet_utf8(m),
    ensures
        spec_parse_client_packet(spec_emit_client_packet(m)) == Some(m),
{
    let e = spec_emit_client_packet(m);
    match m {
        ClientPacketModel::TeleportConfirm { teleport_id } => {
            let e0 = spec_emit_varint(0);
            let e1 = spec_emit_varint(teleport_id as u32);
            lemma_emit_varint_len(0);
            lemma_emit_varint_len(teleport_id as u32);
            assert(e.subrange(0, e0.len() as int) =~= e0);
            lemma_parse_varint_emit(e, 0, 0, 5);
            let i = e0.len() as int;
            assert(e.subrange(i, i + e1.len() as int) =~= e1);
            lemma_parse_varint_emit(e, i, teleport_id as u32, 5);
            crate::wire::lemma_varint_i32_round_trip(teleport_id);
        },
        ClientPacketModel::ChatMessage { message } => {
            let e0 = spec_emit_varint(2);
            let e1 = spec_emit_string(message);
            lemma_emit_varint_len(2);
            assert(e.subrange(0, e0.len() as int) =~= e0);
            lemma_parse_varint_emit(e, 0, 2, 5);
            let i = e0.len() as int;
            assert(e.subrange(i, i + e1.len() as int) =~= e1);
            lemma_string_round_trip(e, i, message);
        },
        ClientPacketModel::ClientStatus { action_id } => {
            let e0 = spec_emit_varint(3);
            let e1 = spec_emit_varint(action_id as u32);
            lemma_emit_varint_len(3);
            lemma_emit_varint_len(action_id as u32);
            assert(e.subrange(0, e0.len() as int) =~= e0);
            lemma_parse_varint_emit(e, 0, 3, 5);
            let i = e0.len() as int;
            assert(e.subrange(i, i + e1.len() as int) =~= e1);
            lemma_parse_varint_emit(e, i, action_id as u32, 5);
            crate::wire::lemma_varint_i32_round_trip(action_id);
        },
        ClientPacketModel::ClientSettings {
            locale,
            view_distance,
            chat_mode,
            chat_colors,
            displayed_skin,
            main_hand,
        } => {
            let e0 = spec_emit_varint(4);
            let e1 = spec_emit_string(locale);
            let e2 = seq![view_distance];
            let e3 = spec_emit_varint(chat_mode as u32);
            let e4 = seq![(if chat_colors { 1u8 } else { 0u8 })];
            let e5 = seq![displayed_skin];
            let e6 = spec_emit_varint(main_hand as u32);
            lemma_emit_varint_len(4);
            lemma_emit_varint_len(chat_mode as u32);
            lemma_emit_varint_len(main_hand as u32);
            assert(e.subrange(0, e0.len() as int) =~= e0);
            lemma_parse_varint_emit(e, 0, 4, 5);
            let j1 = e0.len() as int;
            assert(e.subrange(j1, j1 + e1.len() as int) =~= e1);
            lemma_string_round_trip(e, j1, locale);
            let j2 = j1 + e1.len() as int;
            assert(e[j2] == view_distance);
            let j3 = j2 + 1;
            assert(e.subrange(j3, j3 + e3.len() as int) =~= e3);
            lemma_parse_varint_emit(e, j3, chat_mode as u32, 5);
            crate::wire::lemma_varint_i32_round_trip(chat_mode);
            let j4 = j3 + e3.len() as int;
            assert(e[j4] == (if chat_colors { 1u8 } else { 0u8 }));
            let j5 = j4 + 1;
            assert(e[j5] == displayed_skin);
            let j6 = j5 + 1;
            assert(e.subrange(j6, j6 + e6.len() as int) =~= e6);
            lemma_parse_varint_emit(e, j6, main_hand as u32, 5);
            crate::wire::lemma_varint_i32_round_trip(main_hand);
        },
        ClientPacketModel::KeepAlive { id } => {
            let e0 = spec_emit_varint(11);
            let e1 = spec_be_bytes((id as u64) as nat, 8);
            lemma_emit_varint_len(11);
            lemma_be_bytes_len((id as u64) as nat, 8);
            assert(e.subrange(0, e0.len() as int) =~= e0);
            lemma_parse_varint_emit(e, 0, 11, 5);
            let i = e0.len() as int;
            assert(e.subrange(i, i + 8) =~= e1);
            lemma_parse_u64_emit(e, i, id as u64);
            crate::wire::lemma_u64_i64_round_trip(id);
        },
        ClientPacketModel::PlayerPositionAndLook { x, y, z, yaw, pitch, on_ground } => {
            let e0 = spec_emit_varint(14);
            let e1 = spec_be_bytes(x as nat, 8);
            let e2 = spec_be_bytes(y as nat, 8);
            let e3 = spec_be_bytes(z as nat, 8);
            let e4 = spec_be_bytes(yaw as nat, 4);
            let e5 = spec_be_bytes(pitch as nat, 4);
            lemma_emit_varint_len(14);
            lemma_be_bytes_len(x as nat, 8);
            lemma_be_bytes_len(y as nat, 8);
            lemma_be_bytes_len(z as nat, 8);
            lemma_be_bytes_len(yaw as nat, 4);
            lemma_be_bytes_len(pitch as nat, 4);
            assert(e.subrange(0, e0.len() as int) =~= e0);
            lemma_parse_varint_emit(e, 0, 14, 5);
            let j1 = e0.len() as int;
            assert(e.subrange(j1, j1 + 8) =~= e1);
            lemma_parse_u64_emit(e, j1, x);
            let j2 = j1 + 8;
            assert(e.subrange(j2, j2 + 8) =~= e2);
            lemma_parse_u64_emit(e, j2, y);
            let j3 = j2 + 8;
            assert(e.subrange(j3, j3 + 8) =~= e3);
            lemma_parse_u64_emit(e, j3, z);
            let j4 = j3 + 8;
            assert(e.subrange(j4, j4 + 4) =~= e4);
            lemma_parse_u32_emit(e, j4, yaw);
            let j5 = j4 + 4;
            assert(e.subrange(j5, j5 + 4) =~= e5);
            lemma_parse_u32_emit(e, j5, pitch);
            let j6 = j5 + 4;
            assert(e[j6] == (if on_ground { 1u8 } else { 0u8 }));
        },
    }
}

/// A handshake survives its round trip.
pub proof fn lemma_handshake_round_trip(m: HandshakePacketModel)
    requires
        handshake_valid(m),
        (m matches HandshakePacketModel::HandshakePacket { host, .. } ==> crate::wire::utf8_ok(
            host,
        )),
    ensures
        spec_parse_handshake(spec_emit_handshake(m)) == Some(m),
{
    let e = spec_emit_handshake(m);
    match m {
        HandshakePacketModel::HandshakePacket { version, host, port, next } => {
            let e0 = spec_emit_varint(0);
            let e1 = spec_emit_varint(version as u32);
            let e2 = spec_emit_string(host);
            let e3 = spec_be_bytes(port as nat, 2);
            let e4 = spec_emit_varint(next as u32);
            lemma_emit_varint_len(0);
            lemma_emit_varint_len(version as u32);
            lemma_emit_varint_len(next as u32);
            lemma_be_bytes_len(port as nat, 2);
            assert(e.subrange(0, e0.len() as int) =~= e0);
            lemma_parse_varint_emit(e, 0, 0, 5);
            let j1 = e0.len() as int;
            assert(e.subrange(j1, j1 + e1.len() as int) =~= e1);
            lemma_parse_varint_emit(e, j1, version as u32, 5);
            crate::wire::lemma_varint_i32_round_trip(version);
            let j2 = j1 + e1.len() as int;
            assert(e.subrange(j2, j2 + e2.len() as int) =~= e2);
            lemma_string_round_trip(e, j2, host);
            let j3 = j2 + e2.len() as int;
            assert(e.subrange(j3, j3 + 2) =~= e3);
            lemma_parse_u16_emit(e, j3, port);
            let j4 = j3 + 2;
            assert(e.subrange(j4, j4 + e4.len() as int) =~= e4);
            lemma_parse_varint_emit(e, j4, next as u32, 5);
            crate::wire::lemma_varint_i32_round_trip(next);
        },
    }
}

/// A login-start packet survives its round trip.
pub proof fn lemma_client_login_round_trip(m: ClientLoginPacketModel)
    requires
        client_login_valid(m),
        (m matches ClientLoginPacketModel::LoginStart { name } ==> crate::wire::utf8_ok(name)),
    ensures
        spec_parse_client_login(spec_emit_client_login(m)) == Some(m),
{
    let e = spec_emit_client_login(m);
    match m {
        ClientLoginPacketModel::LoginStart { name } => {
            let e0 = spec_emit_varint(0);
            let e1 = spec_emit_string(name);
            lemma_emit_varint_len(0);
            assert(e.subrange(0, e0.len() as int) =~= e0);
            lemma_parse_varint_emit(e, 0, 0, 5);
            let i = e0.len() as int;
            assert(e.subrange(i, i + e1.len() as int) =~= e1);
            lemma_string_round_trip(e, i, name);
        },
    }
}

} // verus!
