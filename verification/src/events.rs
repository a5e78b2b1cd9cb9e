//! Event matchers: patterns evaluated against inbound packets and tick
//! crossings.  A matcher set is an ordered sequence; the first hit
//! wins.
//!
//! Matchers observe the mirror state from *before* the triggering
//! packet is applied, so edge-triggered conditions (a health change)
//! compare against the previous value.

use crate::gamestate::{spec_first_name, GameState, PlayerModel};
use crate::jsonval::{
    chat_extra_count, chat_extra_count_of, chat_extra_text, chat_extra_text_of, chat_fallback,
    chat_fallback_of, chat_sender, chat_sender_of,
};
use crate::packets::{AddPlayer, PlayerListPacket, RemovePlayer, ServerPacket};
use vstd::prelude::*;

verus! {

/// The patterns a poll can wait for.
#[derive(Debug, Clone, Copy, PartialEq, Eq, Structural)]
pub enum StandardEventMatcher {
    ChatMessage,
    HealthChanged,
    PlayerListChanged,
    TickReached(i64),
}

/// An event produced by a matcher.  Health values are the raw 32-bit
/// IEEE-754 images the wire carried; names and messages are UTF-8
/// bytes.
#[derive(Debug, Clone, PartialEq)]
pub enum StandardEvent {
    ChatMessage { player: Vec<u8>, message: Vec<u8> },
    HealthChanged { new: u32, old: u32 },
    PlayersJoined { usernames: Vec<Vec<u8>> },
    PlayersLeft { usernames: Vec<Vec<u8>> },
    TickReached { tick: i64 },
}

/// Spec-level image of `StandardEvent`.
#[verifier::ext_equal]
pub enum StandardEventModel {
    ChatMessage { player: Seq<u8>, message: Seq<u8> },
    HealthChanged { new: u32, old: u32 },
    PlayersJoined { usernames: Seq<Seq<u8>> },
    PlayersLeft { usernames: Seq<Seq<u8>> },
    TickReached { tick: i64 },
}

impl View for StandardEvent {
    type V = StandardEventModel;

    open spec fn view(&self) -> StandardEventModel {
        match self {
            StandardEvent::ChatMessage { player, message } => {
                StandardEventModel::ChatMessage { player: player@, message: message@ }
            },
            StandardEvent::HealthChanged { new, old } => {
                StandardEventModel::HealthChanged { new: *new, old: *old }
            },
            StandardEvent::PlayersJoined { usernames } => {
                StandardEventModel::PlayersJoined {
                    usernames: usernames@.map_values(|n: Vec<u8>| n@),
                }
            },
            StandardEvent::PlayersLeft { usernames } => {
                StandardEventModel::PlayersLeft {
                    usernames: usernames@.map_values(|n: Vec<u8>| n@),
                }
            },
            StandardEvent::TickReached { tick } => {
                StandardEventModel::TickReached { tick: *tick }
            },
        }
    }
}

// ---------------------------------------------------------------------
// 32-bit float comparison on bit patterns
// ---------------------------------------------------------------------

/// Whether a 32-bit IEEE-754 image is a NaN: exponent all ones with a
/// non-zero mantissa.
pub open spec fn spec_f32_is_nan(b: u32) -> bool {
    (b & 0x7F80_0000) == 0x7F80_0000 && (b & 0x007F_FFFF) != 0
}

/// Whether a 32-bit IEEE-754 image is a zero of either sign.
pub open spec fn spec_f32_is_zero(b: u32) -> bool {
    (b & 0x7FFF_FFFF) == 0
}

/// IEEE inequality of two 32-bit images: any NaN differs from
/// everything, the two zeros are equal, everything else compares by
/// bits.
pub open spec fn spec_f32_bits_neq(a: u32, b: u32) -> bool {
    if spec_f32_is_nan(a) || spec_f32_is_nan(b) {
        true
    } else if spec_f32_is_zero(a) && spec_f32_is_zero(b) {
        false
    } else {
        a != b
    }
}

/// IEEE equality of a 32-bit image with zero.
pub fn f32_bits_is_zero(b: u32) -> (r: bool)
    ensures
        r == spec_f32_is_zero(b),
{
    (b & 0x7FFF_FFFF) == 0
}

fn f32_bits_neq(a: u32, b: u32) -> (r: bool)
    ensures
        r == spec_f32_bits_neq(a, b),
{
    let nan_a = (a & 0x7F80_0000) == 0x7F80_0000 && (a & 0x007F_FFFF) != 0;
    let nan_b = (b & 0x7F80_0000) == 0x7F80_0000 && (b & 0x007F_FFFF) != 0;
    if nan_a || nan_b {
        true
    } else if (a & 0x7FFF_FFFF) == 0 && (b & 0x7FFF_FFFF) == 0 {
        false
    } else {
        a != b
    }
}

// ---------------------------------------------------------------------
// Chat text assembly: pure decisions on extracted plain values
// ---------------------------------------------------------------------

/// Concatenation of a list of byte strings.
pub open spec fn spec_concat(parts: Seq<Seq<u8>>) -> Seq<u8>
    decreases parts.len(),
{
    if parts.len() == 0 {
        Seq::empty()
    } else {
        spec_concat(parts.drop_last()) + parts.last()
    }
}

/// The message text of a chat body: the concatenated rich-text parts
/// when any yielded text, else the plain-string fallback.
pub open spec fn spec_chat_message_text(
    parts: Seq<Seq<u8>>,
    fallback: Option<Seq<u8>>,
) -> Option<Seq<u8>> {
    if spec_concat(parts).len() > 0 {
        Some(spec_concat(parts))
    } else {
        fallback
    }
}

/// Assemble the message text from the extracted rich-text parts and
/// the plain-string fallback.
pub fn chat_message_text(parts: &Vec<Vec<u8>>, fallback: Option<Vec<u8>>) -> (r: Option<Vec<u8>>)
    ensures
        match spec_chat_message_text(
            parts@.map_values(|p: Vec<u8>| p@),
            match fallback {
                Some(f) => Some(f@),
                None => None,
            },
        ) {
            Some(t) => r matches Some(v) && v@ == t,
            None => r is None,
        },
{
    let ghost pview = parts@.map_values(|p: Vec<u8>| p@);
    let mut joined: Vec<u8> = Vec::new();
    let mut i: usize = 0;
    proof {
        assert(pview.take(0) =~= Seq::<Seq<u8>>::empty());
    }
    while i < parts.len()
        invariant
            i <= parts@.len(),
            pview == parts@.map_values(|p: Vec<u8>| p@),
            joined@ == spec_concat(pview.take(i as int)),
        decreases parts@.len() - i,
    {
        let part = &parts[i];
        let mut k: usize = 0;
        let ghost pre = joined@;
        while k < part.len()
            invariant
                k <= part@.len(),
                joined@ == pre + part@.subrange(0, k as int),
            decreases part@.len() - k,
        {
            joined.push(part[k]);
            k += 1;
            assert(joined@ =~= pre + part@.subrange(0, k as int));
        }
        proof {
            assert(part@.subrange(0, part@.len() as int) =~= part@);
            assert(pview.take(i as int + 1).drop_last() =~= pview.take(i as int));
            assert(pview.take(i as int + 1).last() == pview[i as int]);
        }
        i += 1;
    }
    proof {
        assert(pview.take(pview.len() as int) =~= pview);
    }
    if joined.len() > 0 {
        Some(joined)
    } else {
        fallback
    }
}

/// The chat event decision on plain values: no sender text means no
/// event, a message from the self player means no event, anything
/// else is reported.
pub fn chat_event_from_parts(
    player: Option<Vec<u8>>,
    message: Vec<u8>,
    my_name: Option<Vec<u8>>,
) -> (r: Option<StandardEvent>)
    ensures
        match player {
            Some(p) => {
                if (match my_name {
                    Some(n) => p@ == n@,
                    None => false,
                }) {
                    r is None
                } else {
                    r matches Some(ev) && ev@ == (StandardEventModel::ChatMessage {
                        player: p@,
                        message: message@,
                    })
                }
            },
            None => r is None,
        },
{
    match player {
        Some(p) => {
            let is_self = match &my_name {
                Some(n) => crate::wire::bytes_eq(&p, n),
                None => false,
            };
            if is_self {
                None
            } else {
                Some(StandardEvent::ChatMessage { player: p, message })
            }
        },
        None => None,
    }
}

/// The rich-text parts of a chat body up to element `n`: every
/// `with[1].extra[i].text` that is a string, in order.
pub open spec fn spec_chat_texts_upto(b: Seq<u8>, n: int) -> Seq<Seq<u8>>
    decreases n,
{
    if n <= 0 {
        Seq::empty()
    } else {
        let rest = spec_chat_texts_upto(b, n - 1);
        match chat_extra_text_of(b, n - 1) {
            Some(t) => rest.push(t),
            None => rest,
        }
    }
}

/// All rich-text parts of a chat body.
pub open spec fn spec_chat_texts(b: Seq<u8>) -> Seq<Seq<u8>> {
    spec_chat_texts_upto(b, chat_extra_count_of(b))
}

/// The event a chat body yields against a player list: the sender at
/// `with[0].text`, the message from the rich-text parts with the
/// plain-string fallback, and no event for an absent sender or a
/// message from the self player.
pub open spec fn spec_chat_event(
    json: Seq<u8>,
    players: Seq<(u128, PlayerModel)>,
    my_id: u128,
) -> Option<StandardEventModel> {
    match chat_sender_of(json) {
        Some(sender) => match spec_chat_message_text(
            spec_chat_texts(json),
            chat_fallback_of(json),
        ) {
            Some(message) => {
                if (match spec_first_name(players, my_id) {
                    Some(n) => sender == n,
                    None => false,
                }) {
                    None
                } else {
                    Some(StandardEventModel::ChatMessage { player: sender, message })
                }
            },
            None => None,
        },
        None => None,
    }
}

/// Collect the rich-text parts of a chat body, in order.
fn collect_chat_parts(raw: &Vec<u8>) -> (r: Vec<Vec<u8>>)
    ensures
        r@.map_values(|p: Vec<u8>| p@) == spec_chat_texts(raw@),
{
    let n = chat_extra_count(raw);
    let mut parts: Vec<Vec<u8>> = Vec::new();
    let mut i: usize = 0;
    proof {
        assert(parts@.map_values(|p: Vec<u8>| p@) =~= spec_chat_texts_upto(raw@, 0));
    }
    while i < n
        invariant
            i <= n,
            n as int == chat_extra_count_of(raw@),
            parts@.map_values(|p: Vec<u8>| p@) == spec_chat_texts_upto(raw@, i as int),
        decreases n - i,
    {
        let ghost pre = parts@.map_values(|p: Vec<u8>| p@);
        match chat_extra_text(raw, i) {
            Some(t) => {
                let ghost tv = t@;
                parts.push(t);
                proof {
                    assert(parts@.map_values(|p: Vec<u8>| p@) =~= pre.push(tv));
                }
            },
            None => {},
        }
        i += 1;
    }
    parts
}

// ---------------------------------------------------------------------
// Player-list event folds
// ---------------------------------------------------------------------

/// The joined names, in packet order.
pub open spec fn spec_joined_names(entries: Seq<crate::packets::AddPlayerModel>) -> Seq<Seq<u8>> {
    entries.map_values(|e: crate::packets::AddPlayerModel| e.name)
}

/// The names of leaving players that the mirror knew, in packet
/// order; unknown ids contribute nothing.
pub open spec fn spec_left_names(
    players: Seq<(u128, PlayerModel)>,
    entries: Seq<RemovePlayer>,
) -> Seq<Seq<u8>>
    decreases entries.len(),
{
    if entries.len() == 0 {
        Seq::empty()
    } else {
        let rest = spec_left_names(players, entries.drop_last());
        match spec_first_name(players, entries.last().uuid) {
            Some(n) => rest.push(n),
            None => rest,
        }
    }
}

impl StandardEventMatcher {
    /// Evaluate this matcher against a packet, observing the mirror
    /// as it stood before the packet was applied.
    pub fn match_packet(&self, packet: &ServerPacket, prestate: &GameState) -> (r: Option<
        StandardEvent,
    >)
        ensures
            *self == StandardEventMatcher::HealthChanged ==> (match *packet {
                ServerPacket::UpdateHealth { health, .. } => {
                    if spec_f32_bits_neq(health, prestate.spec_health_bits()) {
                        r matches Some(ev) && ev@ == (StandardEventModel::HealthChanged {
                            new: health,
                            old: prestate.spec_health_bits(),
                        })
                    } else {
                        r is None
                    }
                },
                _ => r is None,
            }),
            (*self) matches StandardEventMatcher::TickReached(_) ==> r is None,
            *self == StandardEventMatcher::PlayerListChanged ==> (match *packet {
                ServerPacket::PlayerList { packet: inner } => (match inner {
                    PlayerListPacket::AddPlayers { players } => r matches Some(ev) && ev@
                        == (StandardEventModel::PlayersJoined {
                        usernames: spec_joined_names(
                            players@.map_values(|p: AddPlayer| p@),
                        ),
                    }),
                    PlayerListPacket::RemovePlayers { players } => r matches Some(ev) && ev@
                        == (StandardEventModel::PlayersLeft {
                        usernames: spec_left_names(prestate.spec_players(), players@),
                    }),
                }),
                _ => r is None,
            }),
            *self == StandardEventMatcher::ChatMessage ==> (match *packet {
                ServerPacket::ChatMessage { json, .. } => (match spec_chat_event(
                    json@,
                    prestate.spec_players(),
                    prestate.spec_my_id(),
                ) {
                    Some(m) => r matches Some(ev) && ev@ == m,
                    None => r is None,
                }),
                _ => r is None,
            }),
    {
        match (self, packet) {
            (StandardEventMatcher::ChatMessage, ServerPacket::ChatMessage { json, .. }) => {
                let sender = chat_sender(json);
                let parts = collect_chat_parts(json);
                let fallback = chat_fallback(json);
                let message = match chat_message_text(&parts, fallback) {
                    Some(m) => m,
                    None => { return None },
                };
                let my_name = prestate.my_username();
                chat_event_from_parts(sender, message, my_name)
            },
            (StandardEventMatcher::HealthChanged, ServerPacket::UpdateHealth { health, .. }) => {
                let old_bits = prestate.health_bits();
                if f32_bits_neq(*health, old_bits) {
                    Some(StandardEvent::HealthChanged { new: *health, old: old_bits })
                } else {
                    None
                }
            },
            (
                StandardEventMatcher::PlayerListChanged,
                ServerPacket::PlayerList { packet: PlayerListPacket::AddPlayers { players } },
            ) => {
                let mut usernames: Vec<Vec<u8>> = Vec::new();
                let mut i: usize = 0;
                while i < players.len()
                    invariant
                        i <= players@.len(),
                        usernames@.map_values(|n: Vec<u8>| n@) == spec_joined_names(
                            players@.map_values(|p: AddPlayer| p@),
                        ).take(i as int),
                    decreases players@.len() - i,
                {
                    let ghost pre = usernames@.map_values(|n: Vec<u8>| n@);
                    let name = crate::wire::clone_bytes(&players[i].name);
                    usernames.push(name);
                    proof {
                        assert(usernames@.map_values(|n: Vec<u8>| n@) =~= pre.push(
                            players@.map_values(|p: AddPlayer| p@)[i as int].name,
                        ));
                        assert(spec_joined_names(players@.map_values(|p: AddPlayer| p@)).take(
                            i as int + 1,
                        ) =~= spec_joined_names(players@.map_values(|p: AddPlayer| p@)).take(
                            i as int,
                        ).push(players@.map_values(|p: AddPlayer| p@)[i as int].name));
                    }
                    i += 1;
                }
                proof {
                    assert(spec_joined_names(players@.map_values(|p: AddPlayer| p@)).take(
                        players@.len() as int,
                    ) =~= spec_joined_names(players@.map_values(|p: AddPlayer| p@)));
                }
                Some(StandardEvent::PlayersJoined { usernames })
            },
            (
                StandardEventMatcher::PlayerListChanged,
                ServerPacket::PlayerList { packet: PlayerListPacket::RemovePlayers { players } },
            ) => {
                let mut usernames: Vec<Vec<u8>> = Vec::new();
                let mut i: usize = 0;
                proof {
                    assert(players@.take(0) =~= Seq::<RemovePlayer>::empty());
                }
                while i < players.len()
                    invariant
                        i <= players@.len(),
                        usernames@.map_values(|n: Vec<u8>| n@) == spec_left_names(
                            prestate.spec_players(),
                            players@.take(i as int),
                        ),
                    decreases players@.len() - i,
                {
                    let ghost pre = usernames@.map_values(|n: Vec<u8>| n@);
                    match prestate.player_name(players[i].uuid) {
                        Some(name) => {
                            usernames.push(name);
                            proof {
                                assert(usernames@.map_values(|n: Vec<u8>| n@) =~= pre.push(
                                    spec_first_name(
                                        prestate.spec_players(),
                                        players@[i as int].uuid,
                                    ).unwrap(),
                                ));
                            }
                        },
                        None => {},
                    }
                    proof {
                        assert(players@.take(i as int + 1).drop_last() =~= players@.take(i as int));
                        assert(players@.take(i as int + 1).last() == players@[i as int]);
                    }
                    i += 1;
                }
                proof {
                    assert(players@.take(players@.len() as int) =~= players@);
                }
                Some(StandardEvent::PlayersLeft { usernames })
            },
            _ => None,
        }
    }

    /// Evaluate this matcher against a tick crossing: a tick-reached
    /// pattern fires once the current tick reaches its target,
    /// reporting the target.
    pub fn match_tick(&self, tick: i64) -> (r: Option<StandardEvent>)
        ensures
            match *self {
                StandardEventMatcher::TickReached(target) => {
                    if tick >= target {
                        r matches Some(ev) && ev@ == (StandardEventModel::TickReached {
                            tick: target,
                        })
                    } else {
                        r is None
                    }
                },
                _ => r is None,
            },
    {
        match self {
            StandardEventMatcher::TickReached(target) => {
                if tick >= *target {
                    Some(StandardEvent::TickReached { tick: *target })
                } else {
                    None
                }
            },
            _ => None,
        }
    }
}

/// Wait for any chat message from another player.
pub fn listen_chat() -> (r: StandardEventMatcher)
    ensures
        r == StandardEventMatcher::ChatMessage,
{
    StandardEventMatcher::ChatMessage
}

/// Wait for the mirror's health to change.
pub fn listen_health() -> (r: StandardEventMatcher)
    ensures
        r == StandardEventMatcher::HealthChanged,
{
    StandardEventMatcher::HealthChanged
}

/// Wait for players to join or leave.
pub fn listen_player_list() -> (r: StandardEventMatcher)
    ensures
        r == StandardEventMatcher::PlayerListChanged,
{
    StandardEventMatcher::PlayerListChanged
}

/// Wait for the tick counter to reach a target.
pub fn listen_tick(target_tick: i64) -> (r: StandardEventMatcher)
    ensures
        r == StandardEventMatcher::TickReached(target_tick),
{
    StandardEventMatcher::TickReached(target_tick)
}

/// The first tick event an ordered matcher set yields, if any.
pub open spec fn spec_match_tick_set(
    matchers: Seq<StandardEventMatcher>,
    tick: i64,
) -> Option<StandardEventModel>
    decreases matchers.len(),
{
    if matchers.len() == 0 {
        None
    } else {
        match matchers[0] {
            StandardEventMatcher::TickReached(target) => {
                if tick >= target {
                    Some(StandardEventModel::TickReached { tick: target })
                } else {
                    spec_match_tick_set(matchers.drop_first(), tick)
                }
            },
            _ => spec_match_tick_set(matchers.drop_first(), tick),
        }
    }
}

/// Evaluate an ordered matcher set against a tick crossing: the first
/// hit wins.
pub fn match_tick_set(matchers: &Vec<StandardEventMatcher>, tick: i64) -> (r: Option<
    StandardEvent,
>)
    ensures
        match spec_match_tick_set(matchers@, tick) {
            Some(m) => r matches Some(ev) && ev@ == m,
            None => r is None,
        },
{
    let mut i: usize = 0;
    proof {
        assert(matchers@.skip(0) =~= matchers@);
    }
    while i < matchers.len()
        invariant
            i <= matchers@.len(),
            spec_match_tick_set(matchers@, tick) == spec_match_tick_set(
                matchers@.skip(i as int),
                tick,
            ),
        decreases matchers@.len() - i,
    {
        match matchers[i].match_tick(tick) {
            Some(ev) => {
                proof {
                    assert(matchers@.skip(i as int)[0] == matchers@[i as int]);
                }
                return Some(ev);
            },
            None => {},
        }
        proof {
            assert(matchers@.skip(i as int)[0] == matchers@[i as int]);
            assert(matchers@.skip(i as int).drop_first() =~= matchers@.skip(i as int + 1));
        }
        i += 1;
    }
    proof {
        assert(matchers@.skip(matchers@.len() as int) =~= Seq::<StandardEventMatcher>::empty());
    }
    None
}

/// The event one matcher yields from one packet against the
/// pre-packet mirror state.
pub open spec fn spec_matcher_packet(
    m: StandardEventMatcher,
    p: ServerPacket,
    s: GameState,
) -> Option<StandardEventModel> {
    match m {
        StandardEventMatcher::ChatMessage => match p {
            ServerPacket::ChatMessage { json, .. } => spec_chat_event(
                json@,
                s.spec_players(),
                s.spec_my_id(),
            ),
            _ => None,
        },
        StandardEventMatcher::HealthChanged => match p {
            ServerPacket::UpdateHealth { health, .. } => {
                if spec_f32_bits_neq(health, s.spec_health_bits()) {
                    Some(
                        StandardEventModel::HealthChanged {
                            new: health,
                            old: s.spec_health_bits(),
                        },
                    )
                } else {
                    None
                }
            },
            _ => None,
        },
        StandardEventMatcher::PlayerListChanged => match p {
            ServerPacket::PlayerList { packet: inner } => match inner {
                PlayerListPacket::AddPlayers { players } => Some(
                    StandardEventModel::PlayersJoined {
                        usernames: spec_joined_names(players@.map_values(|q: AddPlayer| q@)),
                    },
                ),
                PlayerListPacket::RemovePlayers { players } => Some(
                    StandardEventModel::PlayersLeft {
                        usernames: spec_left_names(s.spec_players(), players@),
                    },
                ),
            },
            _ => None,
        },
        StandardEventMatcher::TickReached(_) => None,
    }
}

/// The first event an ordered matcher set yields from a packet, if
/// any: matchers are tried in list order and the first hit wins.
pub open spec fn spec_match_packet_set(
    ms: Seq<StandardEventMatcher>,
    p: ServerPacket,
    s: GameState,
) -> Option<StandardEventModel>
    decreases ms.len(),
{
    if ms.len() == 0 {
        None
    } else {
        match spec_matcher_packet(ms[0], p, s) {
            Some(m) => Some(m),
            None => spec_match_packet_set(ms.drop_first(), p, s),
        }
    }
}

/// Evaluate an ordered matcher set against a packet: the first hit
/// wins, as the fold over the single-matcher results states.
pub fn match_packet_set(
    matchers: &Vec<StandardEventMatcher>,
    packet: &ServerPacket,
    prestate: &GameState,
) -> (r: Option<StandardEvent>)
    ensures
        match spec_match_packet_set(matchers@, *packet, *prestate) {
            Some(m) => r matches Some(ev) && ev@ == m,
            None => r is None,
        },
        r matches Some(ev) ==> (ev@ matches StandardEventModel::HealthChanged { new, old } ==> ({
            &&& old == prestate.spec_health_bits()
            &&& (*packet) matches ServerPacket::UpdateHealth { health, .. } && health == new
                && spec_f32_bits_neq(health, prestate.spec_health_bits())
        })),
{
    let mut i: usize = 0;
    proof {
        assert(matchers@.skip(0) =~= matchers@);
    }
    while i < matchers.len()
        invariant
            i <= matchers@.len(),
            spec_match_packet_set(matchers@, *packet, *prestate) == spec_match_packet_set(
                matchers@.skip(i as int),
                *packet,
                *prestate,
            ),
        decreases matchers@.len() - i,
    {
        let m = matchers[i];
        let hit = m.match_packet(packet, prestate);
        proof {
            assert(matchers@.skip(i as int)[0] == matchers@[i as int]);
            assert(matchers@.skip(i as int).drop_first() =~= matchers@.skip(i as int + 1));
            assert(match spec_matcher_packet(m, *packet, *prestate) {
                Some(em) => hit matches Some(ev) && ev@ == em,
                None => hit is None,
            });
        }
        match hit {
            Some(ev) => {
                return Some(ev);
            },
            None => {},
        }
        i += 1;
    }
    proof {
        assert(matchers@.skip(matchers@.len() as int) =~= Seq::<StandardEventMatcher>::empty());
    }
    None
}

} // verus!
