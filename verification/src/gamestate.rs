//! The world mirror: loaded chunks, known players, the self player's
//! id, health and food as received, and the moving flag.
//!
//! Entity kinematics (positions and velocities, which live in
//! floating point) are owned by the embedder; the mirror routes
//! entity-affecting packets to it as plain-valued `EntityAction`s.

use crate::blocks::BlockState;
use crate::chunk::{
    load_single_chunk, section_palette_ok, spec_apply_section, spec_parse_section, Chunk,
    ChunkModel,
};
use crate::geom::{chunk_addr, local_addr, BlockPosition};
use crate::packets::{
    AddPlayer, AddPlayerModel, MultiBlockChangeRecord, PlayerListPacket, RemovePlayer,
    ServerPacket,
};
use crate::wire::DecodeError;
use std::collections::HashMap;
use vstd::prelude::*;

verus! {

broadcast use vstd::std_specs::hash::group_hash_axioms, crate::chunk::lemma_chunk_model_wf;

/// A known player: the name it joined with and, once a spawn or join
/// packet bound one, its entity id.
pub struct Player {
    pub name: Vec<u8>,
    pub entity_id: Option<i32>,
}

/// Spec-level image of `Player`.
#[verifier::ext_equal]
pub struct PlayerModel {
    pub name: Seq<u8>,
    pub entity_id: Option<i32>,
}

impl View for Player {
    type V = PlayerModel;

    open spec fn view(&self) -> PlayerModel {
        PlayerModel { name: self.name@, entity_id: self.entity_id }
    }
}

/// What the embedder must do to its entity store after a packet: the
/// mirror itself holds no floating-point kinematics.
#[derive(Debug, Clone, Copy, PartialEq, Eq, Structural)]
pub enum EntityAction {
    /// Create the entity with the default position and zero velocity.
    Create { entity_id: i32 },
    /// Place the entity at an absolute position (64-bit IEEE-754 bit
    /// patterns).
    SpawnAt { entity_id: i32, x: u64, y: u64, z: u64 },
    /// Store the raw 16-bit velocity triple on the entity.
    SetVelocity { entity_id: i32, velocity_x: i16, velocity_y: i16, velocity_z: i16 },
    /// Apply a position-and-look: per field, add when its flag bit is
    /// set, replace when it is clear (bits 0, 1, 2 for x, y, z; bits
    /// 3, 4 for yaw and pitch, as 32-bit patterns).
    ApplyPositionAndLook { entity_id: i32, x: u64, y: u64, z: u64, yaw: u32, pitch: u32, flags: u8 },
}

/// The chunk-map key of a column address: both signed coordinates,
/// bit-packed side by side.
pub open spec fn spec_chunk_key(x: i32, z: i32) -> u64 {
    (((x as u32) as u64) << 32) | ((z as u32) as u64)
}

/// Packing a column address into its map key.
pub fn chunk_key(x: i32, z: i32) -> (r: u64)
    ensures
        r == spec_chunk_key(x, z),
{
    (((x as u32) as u64) << 32) | ((z as u32) as u64)
}

/// Two column addresses collide in the map only when they are equal.
pub proof fn lemma_chunk_key_injective(x1: i32, z1: i32, x2: i32, z2: i32)
    ensures
        spec_chunk_key(x1, z1) == spec_chunk_key(x2, z2) ==> x1 == x2 && z1 == z2,
{
    assert(((((x1 as u32) as u64) << 32) | ((z1 as u32) as u64)) == ((((x2 as u32) as u64) << 32)
        | ((z2 as u32) as u64)) ==> x1 == x2 && z1 == z2) by (bit_vector);
}

/// The first 26-bit field of a packed block-change position,
/// sign-extended.
pub open spec fn spec_sign_extend_26(v: u64) -> int {
    if v >= 0x200_0000 {
        v - 0x400_0000
    } else {
        v as int
    }
}

/// The block position packed into a block-change packet:
/// x in the top 26 bits, y in the next 12, z in the low 26, with
/// 26-bit sign extension applied to x and z.
pub open spec fn spec_block_change_pos(position: u64) -> (int, int, int) {
    (
        spec_sign_extend_26(position >> 38),
        ((position >> 26) & 0xFFF) as int,
        spec_sign_extend_26(position & 0x3FF_FFFF),
    )
}

/// Unpack a block-change position.
pub fn block_change_pos(position: u64) -> (r: BlockPosition)
    ensures
        r.x == spec_block_change_pos(position).0,
        r.y == spec_block_change_pos(position).1,
        r.z == spec_block_change_pos(position).2,
{
    proof {
        lemma_block_change_fields(position);
    }
    let xf: u64 = position >> 38;
    let yf: u64 = (position >> 26) & 0xFFF;
    let zf: u64 = position & 0x3FF_FFFF;
    let x: i32 = if xf >= 0x200_0000 {
        ((xf as i64) - 0x400_0000) as i32
    } else {
        xf as i32
    };
    let z: i32 = if zf >= 0x200_0000 {
        ((zf as i64) - 0x400_0000) as i32
    } else {
        zf as i32
    };
    BlockPosition { x, y: yf as i32, z }
}

proof fn lemma_block_change_fields(position: u64)
    by (bit_vector)
    ensures
        (position >> 38) < 0x400_0000,
        ((position >> 26) & 0xFFF) < 0x1000,
        (position & 0x3FF_FFFF) < 0x400_0000,
{
}

/// Whether a sequence of players carries an entry with the given id.
pub open spec fn spec_players_contains(s: Seq<(u128, PlayerModel)>, id: u128) -> bool {
    exists|m: int| 0 <= m < s.len() && s[m].0 == id
}

/// Fold an add-players list into the player sequence: a new entry is
/// appended for each id not yet present; known ids are kept as they
/// are.
pub open spec fn spec_add_players(
    s: Seq<(u128, PlayerModel)>,
    entries: Seq<AddPlayerModel>,
) -> Seq<(u128, PlayerModel)>
    decreases entries.len(),
{
    if entries.len() == 0 {
        s
    } else {
        let e = entries[0];
        let s2 = if spec_players_contains(s, e.uuid) {
            s
        } else {
            s.push((e.uuid, PlayerModel { name: e.name, entity_id: None }))
        };
        spec_add_players(s2, entries.drop_first())
    }
}

/// Every entry carrying the given id removed from the player
/// sequence.
pub open spec fn spec_drop_player(s: Seq<(u128, PlayerModel)>, uuid: u128) -> Seq<
    (u128, PlayerModel),
>
    decreases s.len(),
{
    if s.len() == 0 {
        Seq::empty()
    } else {
        let rest = spec_drop_player(s.drop_last(), uuid);
        if s.last().0 == uuid {
            rest
        } else {
            rest.push(s.last())
        }
    }
}

/// Fold a remove-players list into the player sequence: every entry
/// with a named id is dropped, the self entry included; a uuid the
/// mirror never knew removes nothing.
pub open spec fn spec_remove_players(
    s: Seq<(u128, PlayerModel)>,
    entries: Seq<RemovePlayer>,
) -> Seq<(u128, PlayerModel)>
    decreases entries.len(),
{
    if entries.len() == 0 {
        s
    } else {
        spec_remove_players(spec_drop_player(s, entries[0].uuid), entries.drop_first())
    }
}

/// A single block write on the chunk-model map: lands in the loaded
/// chunk holding the position, is dropped otherwise, and never
/// creates a chunk.
pub open spec fn spec_set_block(
    m: Map<u64, ChunkModel>,
    pos: BlockPosition,
    state: BlockState,
) -> Map<u64, ChunkModel> {
    if 0 <= pos.y < 256 {
        let key = spec_chunk_key((pos.x as int / 16) as i32, (pos.z as int / 16) as i32);
        if m.contains_key(key) {
            let cm = m[key];
            m.insert(
                key,
                ChunkModel {
                    blocks: cm.blocks.update(
                        pos.x as int % 16 + 16 * (pos.z as int % 16) + 256 * pos.y,
                        state,
                    ),
                    damage: cm.damage,
                    light: cm.light,
                    skylight: cm.skylight,
                },
            )
        } else {
            m
        }
    } else {
        m
    }
}

/// The world mirror.
pub struct GameState {
    players: Vec<(u128, Player)>,
    my_id: u128,
    health_bits: u32,
    food_raw: i32,
    chunks: HashMap<u64, Chunk>,
    moving: bool,
}

impl GameState {
    /// The known players, in arrival order, keyed by their 128-bit id.
    pub closed spec fn spec_players(self) -> Seq<(u128, PlayerModel)> {
        self.players@.map_values(|p: (u128, Player)| (p.0, p.1@))
    }

    pub closed spec fn spec_my_id(self) -> u128 {
        self.my_id
    }

    /// The raw health field of the last update, as its 32-bit
    /// IEEE-754 image; the half-hearts scale is produced at the
    /// boundary.
    pub closed spec fn spec_health_bits(self) -> u32 {
        self.health_bits
    }

    /// The raw food field of the last update; halved at the boundary.
    pub closed spec fn spec_food_raw(self) -> i32 {
        self.food_raw
    }

    pub closed spec fn spec_chunks(self) -> Map<u64, Chunk> {
        self.chunks@
    }

    /// The loaded chunk at a packed key, if any, as its model.
    pub open spec fn spec_chunk_at(self, key: u64) -> Option<ChunkModel> {
        if self.spec_chunks().contains_key(key) {
            Some(self.spec_chunks()[key]@)
        } else {
            None
        }
    }

    /// All loaded chunks, as their models.
    pub open spec fn spec_chunk_models(self) -> Map<u64, ChunkModel> {
        self.spec_chunks().map_values(|c: Chunk| c@)
    }

    pub closed spec fn spec_moving(self) -> bool {
        self.moving
    }

    /// The entity id bound to a player id: the first entry's, when
    /// the id is known at all.
    pub open spec fn spec_entity_id_of(self, id: u128) -> Option<i32> {
        spec_first_entity_id(self.spec_players(), id)
    }

    /// A fresh mirror around the logged-in player: full health and
    /// food on the raw scale (20.0 as bits, and 20), no chunks, no
    /// other players, not moving.
    pub fn new(my_id: u128, my_username: Vec<u8>) -> (r: GameState)
        ensures
            r.spec_my_id() == my_id,
            r.spec_players() =~= seq![
                (my_id, PlayerModel { name: my_username@, entity_id: None::<i32> }),
            ],
            r.spec_chunks() =~= Map::<u64, Chunk>::empty(),
            r.spec_health_bits() == 0x41A0_0000u32,
            r.spec_food_raw() == 20,
            !r.spec_moving(),
    {
        let ghost name_view = my_username@;
        let mut players: Vec<(u128, Player)> = Vec::new();
        players.push((my_id, Player { name: my_username, entity_id: None }));
        let r = GameState {
            players,
            my_id,
            health_bits: 0x41A0_0000,
            food_raw: 20,
            chunks: HashMap::new(),
            moving: false,
        };
        proof {
            assert(r.spec_players() =~= seq![
                (my_id, PlayerModel { name: name_view, entity_id: None::<i32> }),
            ]);
            assert(r.spec_chunks() =~= Map::<u64, Chunk>::empty());
        }
        r
    }

    /// The packed block state at a world position: `None` while the
    /// position's chunk is not loaded (or the height is outside the
    /// world), the stored state otherwise.
    pub open spec fn spec_block_state_at(self, position: BlockPosition) -> Option<BlockState> {
        if 0 <= position.y < 256 {
            let key = spec_chunk_key(
                (position.x as int / 16) as i32,
                (position.z as int / 16) as i32,
            );
            match self.spec_chunk_at(key) {
                Some(cm) => Some(
                    cm.blocks[position.x as int % 16 + 16 * (position.z as int % 16) + 256
                        * position.y],
                ),
                None => None,
            }
        } else {
            None
        }
    }

    pub fn block_state_at(&self, position: BlockPosition) -> (r: Option<BlockState>)
        ensures
            r == self.spec_block_state_at(position),
    {
        if position.y < 0 || position.y >= 256 {
            return None;
        }
        let ca = chunk_addr(position);
        let key = chunk_key(ca.x, ca.z);
        match self.chunks.get(&key) {
            Some(chunk) => {
                let la = local_addr(position);
                Some(chunk.block_state(la))
            },
            None => None,
        }
    }

    /// Store a block state at a world position.  The write lands in
    /// the loaded chunk holding the position; a write into an
    /// unloaded chunk, or outside the world height, is dropped and
    /// creates no partial chunk.
    pub fn set_block_state(&mut self, pos: BlockPosition, state: BlockState)
        ensures
            final(self).spec_players() == old(self).spec_players(),
            final(self).spec_my_id() == old(self).spec_my_id(),
            final(self).spec_health_bits() == old(self).spec_health_bits(),
            final(self).spec_food_raw() == old(self).spec_food_raw(),
            final(self).spec_moving() == old(self).spec_moving(),
            final(self).spec_block_state_at(pos) == (if old(self).spec_block_state_at(pos)
                is Some {
                Some(state)
            } else {
                None::<BlockState>
            }),
            forall|q: BlockPosition|
                !(q.x == pos.x && q.y == pos.y && q.z == pos.z) ==> final(self).spec_block_state_at(q) == old(self).spec_block_state_at(q),
            forall|k: u64| (#[trigger] final(self).spec_chunk_at(k)) is Some == old(self).spec_chunk_at(k) is Some,
            final(self).spec_chunk_models() == spec_set_block(
                old(self).spec_chunk_models(),
                pos,
                state,
            ),
    {
        if pos.y < 0 || pos.y >= 256 {
            return ;
        }
        let ca = chunk_addr(pos);
        let key = chunk_key(ca.x, ca.z);
        let chunk_opt = self.chunks.remove(&key);
        match chunk_opt {
            Some(mut chunk) => {
                let la = local_addr(pos);
                chunk.set_block_state(la, state);
                self.chunks.insert(key, chunk);
                proof {
                    lemma_same_chunk_same_pos(pos, pos);
                    assert forall|q: BlockPosition|
                        !(q.x == pos.x && q.y == pos.y && q.z == pos.z) implies final(self).spec_block_state_at(q) == old(self).spec_block_state_at(q) by {
                        lemma_chunk_key_injective(
                            (q.x as int / 16) as i32,
                            (q.z as int / 16) as i32,
                            (pos.x as int / 16) as i32,
                            (pos.z as int / 16) as i32,
                        );
                        lemma_same_chunk_same_pos(q, pos);
                    }
                }
            },
            None => {
                proof {
                    assert(final(self).spec_chunks() =~= old(self).spec_chunks());
                }
            },
        }
    }

    /// Drop the chunk column at the given address, if loaded.
    pub fn unload_chunk(&mut self, chunk_x: i32, chunk_z: i32)
        ensures
            final(self).spec_players() == old(self).spec_players(),
            final(self).spec_my_id() == old(self).spec_my_id(),
            final(self).spec_health_bits() == old(self).spec_health_bits(),
            final(self).spec_food_raw() == old(self).spec_food_raw(),
            final(self).spec_moving() == old(self).spec_moving(),
            final(self).spec_chunks() == old(self).spec_chunks().remove(
                spec_chunk_key(chunk_x, chunk_z),
            ),
    {
        let key = chunk_key(chunk_x, chunk_z);
        self.chunks.remove(&key);
    }

    /// Unpack a full-chunk payload and insert the column: up to 16
    /// stacked sections selected by the bitmask, lowest first.
    /// A malformed payload is a fatal decode error and inserts
    /// nothing.
    pub fn load_chunk_data(
        &mut self,
        chunk_x: i32,
        chunk_z: i32,
        primary_bit_mask: u16,
        data: &Vec<u8>,
    ) -> (r: Result<(), DecodeError>)
        ensures
            final(self).spec_players() == old(self).spec_players(),
            final(self).spec_my_id() == old(self).spec_my_id(),
            final(self).spec_health_bits() == old(self).spec_health_bits(),
            final(self).spec_food_raw() == old(self).spec_food_raw(),
            final(self).spec_moving() == old(self).spec_moving(),
            match spec_load_sections(ChunkModel::empty(), data@, 0, primary_bit_mask, 0) {
                Some(cm) => r is Ok && final(self).spec_chunk_at(spec_chunk_key(chunk_x, chunk_z))
                    == Some(cm) && (forall|k: u64|
                    k != spec_chunk_key(chunk_x, chunk_z) ==> #[trigger] final(self).spec_chunk_at(
                        k,
                    ) == old(self).spec_chunk_at(k)),
                None => r is Err && final(self).spec_chunks() == old(self).spec_chunks(),
            },
    {
        let key = chunk_key(chunk_x, chunk_z);
        let mut chunk = Chunk::new();
        let mut pos: usize = 0;
        let mut mask: u16 = primary_bit_mask;
        let mut y_offset: u16 = 0;
        let ghost it0: nat = 0;
        let ghost mut it: nat = 0;
        proof {
            assert(spec_pow2(0) == 1);
        }
        while mask > 0
            invariant
                pos <= data@.len(),
                y_offset == 16 * it,
                (mask as int) * spec_pow2(it) < 65536,
                spec_pow2(it) >= 1,
                match spec_load_sections(ChunkModel::empty(), data@, 0, primary_bit_mask, 0) {
                    Some(cm) => spec_load_sections(
                        chunk@,
                        data@,
                        pos as int,
                        mask,
                        y_offset as int,
                    ) == Some(cm),
                    None => spec_load_sections(chunk@, data@, pos as int, mask, y_offset as int)
                        is None,
                },
            decreases mask,
        {
            proof {
                lemma_pow2_bound(it);
                if it >= 16 {
                    assert((mask as int) * spec_pow2(it) >= spec_pow2(it)) by (nonlinear_arith)
                        requires
                            mask >= 1 && spec_pow2(it) >= 1,
                    ;
                }
                assert(it <= 15);
                assert(y_offset <= 240);
            }
            if mask % 2 == 1 {
                match load_single_chunk(&mut chunk, y_offset as u8, data, &mut pos) {
                    Ok(_) => {},
                    Err(e) => { return Err(e) },
                }
            }
            proof {
                assert((mask as int / 2) * spec_pow2(it + 1) <= (mask as int) * spec_pow2(it))
                    by (nonlinear_arith)
                    requires
                        spec_pow2(it + 1) == 2 * spec_pow2(it) && spec_pow2(it) >= 1,
                ;
                assert(spec_pow2(it + 1) == 2 * spec_pow2(it));
                it = it + 1;
            }
            mask = mask / 2;
            y_offset = y_offset + 16;
        }
        match self.chunks.insert(key, chunk) {
            _ => {},
        }
        Ok(())
    }

    /// The moving flag drives the per-tick planar acceleration.
    pub fn set_moving(&mut self, flag: bool)
        ensures
            final(self).spec_moving() == flag,
            final(self).spec_players() == old(self).spec_players(),
            final(self).spec_my_id() == old(self).spec_my_id(),
            final(self).spec_health_bits() == old(self).spec_health_bits(),
            final(self).spec_food_raw() == old(self).spec_food_raw(),
            final(self).spec_chunks() == old(self).spec_chunks(),
    {
        self.moving = flag;
    }

    pub fn moving(&self) -> (r: bool)
        ensures
            r == self.spec_moving(),
    {
        self.moving
    }

    pub fn health_bits(&self) -> (r: u32)
        ensures
            r == self.spec_health_bits(),
    {
        self.health_bits
    }

    pub fn food_raw(&self) -> (r: i32)
        ensures
            r == self.spec_food_raw(),
    {
        self.food_raw
    }

    pub fn my_id(&self) -> (r: u128)
        ensures
            r == self.spec_my_id(),
    {
        self.my_id
    }

    /// The name of a known player, or `None` for an unknown id.
    pub fn player_name(&self, id: u128) -> (r: Option<Vec<u8>>)
        ensures
            match spec_first_name(self.spec_players(), id) {
                Some(n) => r matches Some(name) && name@ == n,
                None => r is None,
            },
    {
        let mut i: usize = 0;
        while i < self.players.len()
            invariant
                i <= self.spec_players().len(),
                forall|n: int| 0 <= n < i ==> (#[trigger] self.spec_players()[n]).0 != id,
            decreases self.spec_players().len() - i,
        {
            if self.players[i].0 == id {
                let name = crate::wire::clone_bytes(&self.players[i].1.name);
                proof {
                    assert(self.spec_players()[i as int].0 == id);
                    assert(self.spec_players()[i as int].1.name == name@);
                    lemma_first_name_at(self.spec_players(), id, i as int);
                }
                return Some(name);
            }
            i += 1;
        }
        proof {
            lemma_first_name_none(self.spec_players(), id);
        }
        None
    }

    /// The self player's name.
    pub fn my_username(&self) -> (r: Option<Vec<u8>>)
        ensures
            match spec_first_name(self.spec_players(), self.spec_my_id()) {
                Some(n) => r matches Some(name) && name@ == n,
                None => r is None,
            },
    {
        self.player_name(self.my_id)
    }

    /// Every known player's name, in arrival order.
    pub fn player_names(&self) -> (r: Vec<Vec<u8>>)
        ensures
            r@.len() == self.spec_players().len(),
            forall|m: int|
                0 <= m < r@.len() ==> (#[trigger] r@[m])@ == self.spec_players()[m].1.name,
    {
        let mut r: Vec<Vec<u8>> = Vec::new();
        let mut i: usize = 0;
        while i < self.players.len()
            invariant
                i <= self.spec_players().len(),
                r@.len() == i,
                forall|m: int|
                    0 <= m < r@.len() ==> (#[trigger] r@[m])@ == self.spec_players()[m].1.name,
            decreases self.spec_players().len() - i,
        {
            let name = crate::wire::clone_bytes(&self.players[i].1.name);
            r.push(name);
            i += 1;
        }
        r
    }
}

/// The position tried for an equal chunk and an equal packed local
/// index is the same position.
proof fn lemma_same_chunk_same_pos(q: BlockPosition, pos: BlockPosition)
    ensures
        (q.x as int / 16 == pos.x as int / 16 && q.z as int / 16 == pos.z as int / 16 && q.x as int
            % 16 + 16 * (q.z as int % 16) + 256 * q.y == pos.x as int % 16 + 16 * (pos.z as int
            % 16) + 256 * pos.y && 0 <= q.y < 256 && 0 <= pos.y < 256) ==> q == pos,
        0 <= q.x as int % 16 < 16,
        0 <= q.z as int % 16 < 16,
        0 <= pos.x as int % 16 < 16,
        0 <= pos.z as int % 16 < 16,
{
    vstd::arithmetic::div_mod::lemma_fundamental_div_mod(q.x as int, 16);
    vstd::arithmetic::div_mod::lemma_fundamental_div_mod(q.z as int, 16);
    vstd::arithmetic::div_mod::lemma_fundamental_div_mod(pos.x as int, 16);
    vstd::arithmetic::div_mod::lemma_fundamental_div_mod(pos.z as int, 16);
    vstd::arithmetic::div_mod::lemma_mod_bound(q.x as int, 16);
    vstd::arithmetic::div_mod::lemma_mod_bound(q.z as int, 16);
    vstd::arithmetic::div_mod::lemma_mod_bound(pos.x as int, 16);
    vstd::arithmetic::div_mod::lemma_mod_bound(pos.z as int, 16);
}

/// Powers of two, for the bitmask walk.
pub open spec fn spec_pow2(n: nat) -> nat
    decreases n,
{
    if n == 0 {
        1
    } else {
        2 * spec_pow2((n - 1) as nat)
    }
}

proof fn lemma_pow2_bound(it: nat)
    ensures
        spec_pow2(it) >= 1,
        spec_pow2(it + 1) == 2 * spec_pow2(it),
        it >= 16 ==> spec_pow2(it) >= 65536,
    decreases it,
{
    if it > 0 {
        lemma_pow2_bound((it - 1) as nat);
    }
    if it == 16 {
        assert(spec_pow2(0) == 1);
        assert(spec_pow2(1) == 2);
        assert(spec_pow2(2) == 4);
        assert(spec_pow2(3) == 8);
        assert(spec_pow2(4) == 16);
        assert(spec_pow2(5) == 32);
        assert(spec_pow2(6) == 64);
        assert(spec_pow2(7) == 128);
        assert(spec_pow2(8) == 256);
        assert(spec_pow2(9) == 512);
        assert(spec_pow2(10) == 1024);
        assert(spec_pow2(11) == 2048);
        assert(spec_pow2(12) == 4096);
        assert(spec_pow2(13) == 8192);
        assert(spec_pow2(14) == 16384);
        assert(spec_pow2(15) == 32768);
        assert(spec_pow2(16) == 65536);
    }
}

/// Fold the present sections of a full-chunk payload into a column,
/// walking the bitmask from its lowest bit, 16 blocks of height per
/// bit.  `None` marks a malformed payload.
pub open spec fn spec_load_sections(
    c: ChunkModel,
    b: Seq<u8>,
    i: int,
    mask: u16,
    y_offset: int,
) -> Option<ChunkModel>
    decreases mask,
{
    if mask == 0 {
        Some(c)
    } else if mask % 2 == 1 {
        match spec_parse_section(b, i) {
            Some((sec, j)) => {
                if section_palette_ok(sec) && 0 <= y_offset <= 240 {
                    spec_load_sections(
                        spec_apply_section(c, sec, y_offset as u8),
                        b,
                        j,
                        mask / 2,
                        y_offset + 16,
                    )
                } else {
                    None
                }
            },
            None => None,
        }
    } else {
        spec_load_sections(c, b, i, mask / 2, y_offset + 16)
    }
}

impl GameState {
    /// Whether a player with the given id is known.
    pub fn contains_player(&self, id: u128) -> (r: bool)
        ensures
            r == spec_players_contains(self.spec_players(), id),
    {
        let mut i: usize = 0;
        while i < self.players.len()
            invariant
                i <= self.spec_players().len(),
                forall|n: int| 0 <= n < i ==> (#[trigger] self.spec_players()[n]).0 != id,
            decreases self.spec_players().len() - i,
        {
            if self.players[i].0 == id {
                proof {
                    assert(self.spec_players()[i as int].0 == id);
                }
                return true;
            }
            i += 1;
        }
        false
    }

    /// Fold an add-players list into the mirror.
    fn apply_add_players(&mut self, entries: &Vec<AddPlayer>)
        ensures
            final(self).spec_players() == spec_add_players(
                old(self).spec_players(),
                entries@.map_values(|p: AddPlayer| p@),
            ),
            final(self).spec_my_id() == old(self).spec_my_id(),
            final(self).spec_health_bits() == old(self).spec_health_bits(),
            final(self).spec_food_raw() == old(self).spec_food_raw(),
            final(self).spec_moving() == old(self).spec_moving(),
            final(self).spec_chunks() == old(self).spec_chunks(),
    {
        let ghost es = entries@.map_values(|p: AddPlayer| p@);
        let ghost s0 = self.spec_players();
        proof {
            assert(es.skip(0) =~= es);
        }
        let mut k: usize = 0;
        while k < entries.len()
            invariant
                k <= es.len(),
                es == entries@.map_values(|p: AddPlayer| p@),
                spec_add_players(self.spec_players(), es.skip(k as int)) == spec_add_players(
                    s0,
                    es,
                ),
                self.spec_my_id() == old(self).spec_my_id(),
                self.spec_health_bits() == old(self).spec_health_bits(),
                self.spec_food_raw() == old(self).spec_food_raw(),
                self.spec_moving() == old(self).spec_moving(),
                self.spec_chunks() == old(self).spec_chunks(),
                s0 == old(self).spec_players(),
            decreases es.len() - k,
        {
            let ghost pre = self.spec_players();
            let uuid = entries[k].uuid;
            let known = self.contains_player(uuid);
            if !known {
                let name = crate::wire::clone_bytes(&entries[k].name);
                self.players.push((uuid, Player { name, entity_id: None }));
                proof {
                    assert(self.spec_players() =~= pre.push(
                        (uuid, PlayerModel { name: es[k as int].name, entity_id: None::<i32> }),
                    ));
                }
            }
            proof {
                assert(es.skip(k as int).drop_first() =~= es.skip(k as int + 1));
                assert(es.skip(k as int)[0] == es[k as int]);
            }
            k += 1;
        }
        proof {
            assert(es.skip(es.len() as int) =~= Seq::<AddPlayerModel>::empty());
        }
    }

    /// Fold a remove-players list into the mirror.
    fn apply_remove_players(&mut self, entries: &Vec<RemovePlayer>)
        ensures
            final(self).spec_players() == spec_remove_players(
                old(self).spec_players(),
                entries@,
            ),
            final(self).spec_my_id() == old(self).spec_my_id(),
            final(self).spec_health_bits() == old(self).spec_health_bits(),
            final(self).spec_food_raw() == old(self).spec_food_raw(),
            final(self).spec_moving() == old(self).spec_moving(),
            final(self).spec_chunks() == old(self).spec_chunks(),
    {
        let ghost es = entries@;
        let ghost s0 = self.spec_players();
        proof {
            assert(es.skip(0) =~= es);
        }
        let mut k: usize = 0;
        while k < entries.len()
            invariant
                k <= es.len(),
                es == entries@,
                spec_remove_players(self.spec_players(), es.skip(k as int))
                    == spec_remove_players(s0, es),
                self.spec_my_id() == old(self).spec_my_id(),
                self.spec_health_bits() == old(self).spec_health_bits(),
                self.spec_food_raw() == old(self).spec_food_raw(),
                self.spec_moving() == old(self).spec_moving(),
                self.spec_chunks() == old(self).spec_chunks(),
                s0 == old(self).spec_players(),
            decreases es.len() - k,
        {
            self.drop_player(entries[k].uuid);
            proof {
                assert(es.skip(k as int).drop_first() =~= es.skip(k as int + 1));
                assert(es.skip(k as int)[0] == es[k as int]);
            }
            k += 1;
        }
        proof {
            assert(es.skip(es.len() as int) =~= Seq::<RemovePlayer>::empty());
        }
    }

    /// Remove every entry carrying the given id.
    fn drop_player(&mut self, uuid: u128)
        ensures
            final(self).spec_players() == spec_drop_player(old(self).spec_players(), uuid),
            final(self).spec_my_id() == old(self).spec_my_id(),
            final(self).spec_health_bits() == old(self).spec_health_bits(),
            final(self).spec_food_raw() == old(self).spec_food_raw(),
            final(self).spec_moving() == old(self).spec_moving(),
            final(self).spec_chunks() == old(self).spec_chunks(),
    {
        let ghost s0 = self.spec_players();
        let mut kept: Vec<(u128, Player)> = Vec::new();
        let mut i: usize = 0;
        proof {
            assert(s0.take(0) =~= Seq::<(u128, PlayerModel)>::empty());
            assert(kept@.map_values(|p: (u128, Player)| (p.0, p.1@)) =~= spec_drop_player(
                s0.take(0),
                uuid,
            ));
        }
        while i < self.players.len()
            invariant
                i <= self.players@.len(),
                s0 == self.spec_players(),
                s0.len() == self.players@.len(),
                kept@.map_values(|p: (u128, Player)| (p.0, p.1@)) == spec_drop_player(
                    s0.take(i as int),
                    uuid,
                ),
            decreases self.players@.len() - i,
        {
            let ghost keptpre = kept@.map_values(|p: (u128, Player)| (p.0, p.1@));
            let id = self.players[i].0;
            proof {
                assert(s0[i as int].0 == id);
                assert(s0[i as int].1 == self.players@[i as int].1@);
            }
            if id != uuid {
                let name = crate::wire::clone_bytes(&self.players[i].1.name);
                let eid = self.players[i].1.entity_id;
                kept.push((id, Player { name, entity_id: eid }));
                proof {
                    assert(kept@.map_values(|p: (u128, Player)| (p.0, p.1@)) =~= keptpre.push(
                        s0[i as int],
                    ));
                }
            }
            proof {
                assert(s0.take(i as int + 1).drop_last() =~= s0.take(i as int));
                assert(s0.take(i as int + 1).last() == s0[i as int]);
            }
            i += 1;
        }
        proof {
            assert(s0.take(s0.len() as int) =~= s0);
        }
        self.players = kept;
    }

    /// Bind an entity id to the first entry with the given player id,
    /// if one is known.
    fn bind_entity_id(&mut self, uuid: u128, entity_id: i32)
        ensures
            final(self).spec_my_id() == old(self).spec_my_id(),
            final(self).spec_health_bits() == old(self).spec_health_bits(),
            final(self).spec_food_raw() == old(self).spec_food_raw(),
            final(self).spec_moving() == old(self).spec_moving(),
            final(self).spec_chunks() == old(self).spec_chunks(),
            spec_players_contains(old(self).spec_players(), uuid) ==> exists|m: int|
                0 <= m < old(self).spec_players().len() && (#[trigger] old(self).spec_players()[m]).0 == uuid && (forall|n: int|
                    0 <= n < m ==> (#[trigger] old(self).spec_players()[n]).0 != uuid) && final(self).spec_players() =~= old(self).spec_players().update(
                    m,
                    (
                        uuid,
                        PlayerModel {
                            name: old(self).spec_players()[m].1.name,
                            entity_id: Some(entity_id),
                        },
                    ),
                ),
            !spec_players_contains(old(self).spec_players(), uuid) ==> final(self).spec_players()
                == old(self).spec_players(),
    {
        let mut i: usize = 0;
        while i < self.players.len()
            invariant
                i <= self.spec_players().len(),
                self.spec_players() == old(self).spec_players(),
                self.spec_my_id() == old(self).spec_my_id(),
                self.spec_health_bits() == old(self).spec_health_bits(),
                self.spec_food_raw() == old(self).spec_food_raw(),
                self.spec_moving() == old(self).spec_moving(),
                self.spec_chunks() == old(self).spec_chunks(),
                forall|n: int| 0 <= n < i ==> (#[trigger] self.spec_players()[n]).0 != uuid,
            decreases self.spec_players().len() - i,
        {
            if self.players[i].0 == uuid {
                let ghost pre = self.spec_players();
                let name = crate::wire::clone_bytes(&self.players[i].1.name);
                let entry = (uuid, Player { name, entity_id: Some(entity_id) });
                self.players[i] = entry;
                proof {
                    assert(pre[i as int].0 == uuid);
                    assert(self.spec_players() =~= pre.update(
                        i as int,
                        (
                            uuid,
                            PlayerModel {
                                name: pre[i as int].1.name,
                                entity_id: Some(entity_id),
                            },
                        ),
                    ));
                }
                return ;
            }
            i += 1;
        }
    }

    /// Record an update-health packet: the raw wire fields verbatim.
    fn apply_health(&mut self, health: u32, food: i32)
        ensures
            final(self).spec_health_bits() == health,
            final(self).spec_food_raw() == food,
            final(self).spec_players() == old(self).spec_players(),
            final(self).spec_my_id() == old(self).spec_my_id(),
            final(self).spec_moving() == old(self).spec_moving(),
            final(self).spec_chunks() == old(self).spec_chunks(),
    {
        self.health_bits = health;
        self.food_raw = food;
    }

    /// The entity id bound to the self player, if already known.
    pub fn my_entity_id(&self) -> (r: Option<i32>)
        ensures
            r == self.spec_entity_id_of(self.spec_my_id()),
    {
        let mut i: usize = 0;
        while i < self.players.len()
            invariant
                i <= self.spec_players().len(),
                forall|n: int| 0 <= n < i ==> (#[trigger] self.spec_players()[n]).0 != self.spec_my_id(),
            decreases self.spec_players().len() - i,
        {
            if self.players[i].0 == self.my_id {
                proof {
                    assert(self.spec_players()[i as int].0 == self.spec_my_id());
                    lemma_first_entity_id_at(self.spec_players(), self.spec_my_id(), i as int);
                }
                return self.players[i].1.entity_id;
            }
            i += 1;
        }
        proof {
            lemma_first_entity_id_none(self.spec_players(), self.spec_my_id());
        }
        None
    }

    /// Apply a server packet's effect to the mirror, and hand back the
    /// entity actions the embedder must apply to its own store.  Only
    /// a malformed full-chunk payload fails.
    pub fn handle_packet(&mut self, packet: &ServerPacket) -> (r: Result<
        Vec<EntityAction>,
        DecodeError,
    >)
        ensures
            final(self).spec_my_id() == old(self).spec_my_id(),
            (*packet) matches ServerPacket::BlockChange { position, block_state } ==> ({
                &&& r matches Ok(acts)
                &&& acts@ =~= Seq::<EntityAction>::empty()
                &&& final(self).spec_chunk_models() == spec_set_block(
                    old(self).spec_chunk_models(),
                    spec_bc_position(position),
                    BlockState(block_state),
                )
                &&& final(self).spec_players() == old(self).spec_players()
                &&& final(self).spec_health_bits() == old(self).spec_health_bits()
            }),
            (*packet) matches ServerPacket::MultiBlockChange { chunk_x, chunk_z, records } ==> ({
                &&& r matches Ok(acts)
                &&& acts@ =~= Seq::<EntityAction>::empty()
                &&& final(self).spec_chunk_models() == spec_apply_mbc(
                    old(self).spec_chunk_models(),
                    chunk_x as int,
                    chunk_z as int,
                    records@,
                )
                &&& final(self).spec_players() == old(self).spec_players()
                &&& final(self).spec_health_bits() == old(self).spec_health_bits()
            }),
            (*packet) matches ServerPacket::ChunkData {
                chunk_x,
                chunk_z,
                full_chunk,
                primary_bitmask,
                data,
            } ==> ({
                if full_chunk {
                    match spec_load_sections(
                        ChunkModel::empty(),
                        data@,
                        0,
                        spec_chunk_mask(primary_bitmask),
                        0,
                    ) {
                        Some(cm) => {
                            &&& r matches Ok(acts)
                            &&& acts@ =~= Seq::<EntityAction>::empty()
                            &&& final(self).spec_chunk_at(spec_chunk_key(chunk_x, chunk_z))
                                == Some(cm)
                            &&& (forall|k: u64|
                                k != spec_chunk_key(chunk_x, chunk_z) ==> #[trigger] final(self).spec_chunk_at(k) == old(self).spec_chunk_at(k))
                            &&& final(self).spec_players() == old(self).spec_players()
                        },
                        None => r is Err,
                    }
                } else {
                    &&& r matches Ok(acts)
                    &&& acts@ =~= Seq::<EntityAction>::empty()
                    &&& final(self).spec_chunks() == old(self).spec_chunks()
                    &&& final(self).spec_players() == old(self).spec_players()
                }
            }),
            (*packet) matches ServerPacket::UnloadChunk { chunk_x, chunk_z } ==> ({
                &&& r matches Ok(acts)
                &&& acts@ =~= Seq::<EntityAction>::empty()
                &&& final(self).spec_chunks() == old(self).spec_chunks().remove(
                    spec_chunk_key(chunk_x, chunk_z),
                )
                &&& final(self).spec_players() == old(self).spec_players()
            }),
            (*packet) matches ServerPacket::JoinGame { entity_id, .. } ==> ({
                &&& r matches Ok(acts)
                &&& acts@ =~= seq![EntityAction::Create { entity_id }]
                &&& final(self).spec_chunks() == old(self).spec_chunks()
            }),
            (*packet) matches ServerPacket::SpawnPlayer { entity_id, uuid, x, y, z, .. } ==> ({
                &&& r matches Ok(acts)
                &&& acts@ =~= seq![
                    EntityAction::Create { entity_id },
                    EntityAction::SpawnAt { entity_id, x, y, z },
                ]
                &&& final(self).spec_chunks() == old(self).spec_chunks()
            }),
            (*packet) matches ServerPacket::EntityVelocity {
                entity_id,
                velocity_x,
                velocity_y,
                velocity_z,
            } ==> ({
                &&& r matches Ok(acts)
                &&& acts@ =~= seq![
                    EntityAction::SetVelocity { entity_id, velocity_x, velocity_y, velocity_z },
                ]
                &&& final(self).spec_players() == old(self).spec_players()
                &&& final(self).spec_chunks() == old(self).spec_chunks()
            }),
            (*packet) matches ServerPacket::PlayerPositionAndLook {
                x,
                y,
                z,
                yaw,
                pitch,
                flags,
                ..
            } ==> ({
                &&& r matches Ok(acts)
                &&& final(self).spec_players() == old(self).spec_players()
                &&& final(self).spec_chunks() == old(self).spec_chunks()
                &&& (match old(self).spec_entity_id_of(old(self).spec_my_id()) {
                    Some(eid) => acts@ =~= seq![
                        EntityAction::ApplyPositionAndLook {
                            entity_id: eid,
                            x,
                            y,
                            z,
                            yaw,
                            pitch,
                            flags,
                        },
                    ],
                    None => acts@ =~= Seq::<EntityAction>::empty(),
                })
            }),
            (*packet) matches ServerPacket::PlayerList { packet: inner } ==> ({
                &&& r matches Ok(acts)
                &&& acts@ =~= Seq::<EntityAction>::empty()
                &&& final(self).spec_chunks() == old(self).spec_chunks()
                &&& (match inner {
                    PlayerListPacket::AddPlayers { players } => final(self).spec_players()
                        == spec_add_players(
                        old(self).spec_players(),
                        players@.map_values(|p: AddPlayer| p@),
                    ),
                    PlayerListPacket::RemovePlayers { players } => final(self).spec_players()
                        == spec_remove_players(old(self).spec_players(), players@),
                })
            }),
            (*packet) matches ServerPacket::UpdateHealth { health, food, .. } ==> ({
                &&& r matches Ok(acts)
                &&& acts@ =~= Seq::<EntityAction>::empty()
                &&& final(self).spec_health_bits() == health
                &&& final(self).spec_food_raw() == food
                &&& final(self).spec_players() == old(self).spec_players()
                &&& final(self).spec_chunks() == old(self).spec_chunks()
            }),
            packet_is_passive(packet) ==> ({
                &&& r matches Ok(acts)
                &&& acts@ =~= Seq::<EntityAction>::empty()
                &&& *final(self) == *old(self)
            }),
    {
        match packet {
            ServerPacket::BlockChange { position, block_state } => {
                let pos = block_change_pos(*position);
                proof {
                    lemma_block_change_fields(*position);
                    assert(pos == spec_bc_position(*position));
                }
                self.set_block_state(pos, BlockState(*block_state));
                Ok(Vec::new())
            },
            ServerPacket::MultiBlockChange { chunk_x, chunk_z, records } => {
                self.apply_mbc_records(*chunk_x, *chunk_z, records);
                Ok(Vec::new())
            },
            ServerPacket::ChunkData { chunk_x, chunk_z, full_chunk, primary_bitmask, data } => {
                if *full_chunk {
                    let mask = chunk_mask(*primary_bitmask);
                    match self.load_chunk_data(*chunk_x, *chunk_z, mask, data) {
                        Ok(_) => Ok(Vec::new()),
                        Err(e) => Err(e),
                    }
                } else {
                    Ok(Vec::new())
                }
            },
            ServerPacket::UnloadChunk { chunk_x, chunk_z } => {
                self.unload_chunk(*chunk_x, *chunk_z);
                Ok(Vec::new())
            },
            ServerPacket::JoinGame { entity_id, .. } => {
                let my_id = self.my_id;
                self.bind_entity_id(my_id, *entity_id);
                let mut acts: Vec<EntityAction> = Vec::new();
                acts.push(EntityAction::Create { entity_id: *entity_id });
                proof {
                    assert(acts@ =~= seq![EntityAction::Create { entity_id: *entity_id }]);
                }
                Ok(acts)
            },
            ServerPacket::SpawnPlayer { entity_id, uuid, x, y, z, .. } => {
                self.bind_entity_id(*uuid, *entity_id);
                let mut acts: Vec<EntityAction> = Vec::new();
                acts.push(EntityAction::Create { entity_id: *entity_id });
                acts.push(EntityAction::SpawnAt { entity_id: *entity_id, x: *x, y: *y, z: *z });
                proof {
                    assert(acts@ =~= seq![
                        EntityAction::Create { entity_id: *entity_id },
                        EntityAction::SpawnAt { entity_id: *entity_id, x: *x, y: *y, z: *z },
                    ]);
                }
                Ok(acts)
            },
            ServerPacket::EntityVelocity { entity_id, velocity_x, velocity_y, velocity_z } => {
                let mut acts: Vec<EntityAction> = Vec::new();
                acts.push(
                    EntityAction::SetVelocity {
                        entity_id: *entity_id,
                        velocity_x: *velocity_x,
                        velocity_y: *velocity_y,
                        velocity_z: *velocity_z,
                    },
                );
                proof {
                    assert(acts@ =~= seq![
                        EntityAction::SetVelocity {
                            entity_id: *entity_id,
                            velocity_x: *velocity_x,
                            velocity_y: *velocity_y,
                            velocity_z: *velocity_z,
                        },
                    ]);
                }
                Ok(acts)
            },
            ServerPacket::PlayerPositionAndLook { x, y, z, yaw, pitch, flags, .. } => {
                let mut acts: Vec<EntityAction> = Vec::new();
                match self.my_entity_id() {
                    Some(eid) => {
                        acts.push(
                            EntityAction::ApplyPositionAndLook {
                                entity_id: eid,
                                x: *x,
                                y: *y,
                                z: *z,
                                yaw: *yaw,
                                pitch: *pitch,
                                flags: *flags,
                            },
                        );
                        proof {
                            assert(acts@ =~= seq![
                                EntityAction::ApplyPositionAndLook {
                                    entity_id: eid,
                                    x: *x,
                                    y: *y,
                                    z: *z,
                                    yaw: *yaw,
                                    pitch: *pitch,
                                    flags: *flags,
                                },
                            ]);
                        }
                    },
                    None => {},
                }
                Ok(acts)
            },
            ServerPacket::PlayerList { packet } => {
                match packet {
                    PlayerListPacket::AddPlayers { players } => {
                        self.apply_add_players(players);
                    },
                    PlayerListPacket::RemovePlayers { players } => {
                        self.apply_remove_players(players);
                    },
                }
                Ok(Vec::new())
            },
            ServerPacket::UpdateHealth { health, food, .. } => {
                self.apply_health(*health, *food);
                Ok(Vec::new())
            },
            _ => Ok(Vec::new()),
        }
    }

    /// Fold a multi-block-change record list into the chunk store.
    fn apply_mbc_records(&mut self, chunk_x: i32, chunk_z: i32, records: &Vec<
        MultiBlockChangeRecord,
    >)
        ensures
            final(self).spec_chunk_models() == spec_apply_mbc(
                old(self).spec_chunk_models(),
                chunk_x as int,
                chunk_z as int,
                records@,
            ),
            final(self).spec_players() == old(self).spec_players(),
            final(self).spec_my_id() == old(self).spec_my_id(),
            final(self).spec_health_bits() == old(self).spec_health_bits(),
            final(self).spec_food_raw() == old(self).spec_food_raw(),
            final(self).spec_moving() == old(self).spec_moving(),
    {
        let ghost m0 = self.spec_chunk_models();
        let ghost rs = records@;
        let mut k: usize = 0;
        proof {
            assert(rs.take(0) =~= Seq::<MultiBlockChangeRecord>::empty());
        }
        while k < records.len()
            invariant
                k <= rs.len(),
                rs == records@,
                self.spec_chunk_models() == spec_apply_mbc(
                    m0,
                    chunk_x as int,
                    chunk_z as int,
                    rs.take(k as int),
                ),
                self.spec_players() == old(self).spec_players(),
                self.spec_my_id() == old(self).spec_my_id(),
                self.spec_health_bits() == old(self).spec_health_bits(),
                self.spec_food_raw() == old(self).spec_food_raw(),
                self.spec_moving() == old(self).spec_moving(),
                m0 == old(self).spec_chunk_models(),
            decreases rs.len() - k,
        {
            let rec = records[k];
            let pos = mbc_global_pos(chunk_x, chunk_z, rec.local_addr);
            self.set_block_state(pos, BlockState(rec.block_state));
            proof {
                assert(rs.take(k as int + 1).drop_last() =~= rs.take(k as int));
                assert(rs.take(k as int + 1).last() == rs[k as int]);
            }
            k += 1;
        }
        proof {
            assert(rs.take(rs.len() as int) =~= rs);
        }
    }
}

/// The world position a multi-block-change record names: the chunk
/// corner plus the unpacked local offset.  A chunk key outside the
/// addressable range pins the write to an unreachable height, so it is
/// dropped like any other write outside the world.
pub open spec fn spec_mbc_pos(cx: int, cz: int, local_addr: u16) -> BlockPosition {
    if crate::geom::chunk_coord_in_range(cx) && crate::geom::chunk_coord_in_range(cz) {
        BlockPosition {
            x: (16 * cx + local_addr as int % 16) as i32,
            y: (local_addr as int / 256) as i32,
            z: (16 * cz + (local_addr as int / 16) % 16) as i32,
        }
    } else {
        BlockPosition { x: 0i32, y: -1i32, z: 0i32 }
    }
}

/// Unpack a record's world position.
fn mbc_global_pos(chunk_x: i32, chunk_z: i32, local_addr: u16) -> (r: BlockPosition)
    ensures
        r == spec_mbc_pos(chunk_x as int, chunk_z as int, local_addr),
{
    let in_range_x = -0x800_0000 <= chunk_x && chunk_x < 0x800_0000;
    let in_range_z = -0x800_0000 <= chunk_z && chunk_z < 0x800_0000;
    if in_range_x && in_range_z {
        let la = crate::geom::from_local_index(local_addr);
        let ca = crate::geom::ChunkAddr { x: chunk_x, z: chunk_z };
        crate::geom::to_global_coords(ca, la)
    } else {
        BlockPosition { x: 0, y: -1, z: 0 }
    }
}

/// Fold the records of a multi-block change over the chunk models,
/// first to last.
pub open spec fn spec_apply_mbc(
    m: Map<u64, ChunkModel>,
    cx: int,
    cz: int,
    records: Seq<MultiBlockChangeRecord>,
) -> Map<u64, ChunkModel>
    decreases records.len(),
{
    if records.len() == 0 {
        m
    } else {
        spec_set_block(
            spec_apply_mbc(m, cx, cz, records.drop_last()),
            spec_mbc_pos(cx, cz, records.last().local_addr),
            BlockState(records.last().block_state),
        )
    }
}

/// The block position of a block-change packet, as an addressable
/// position.
pub open spec fn spec_bc_position(position: u64) -> BlockPosition {
    BlockPosition {
        x: spec_block_change_pos(position).0 as i32,
        y: spec_block_change_pos(position).1 as i32,
        z: spec_block_change_pos(position).2 as i32,
    }
}

/// The name of the first entry carrying the given id.
pub open spec fn spec_first_name(s: Seq<(u128, PlayerModel)>, id: u128) -> Option<Seq<u8>>
    decreases s.len(),
{
    if s.len() == 0 {
        None
    } else if s[0].0 == id {
        Some(s[0].1.name)
    } else {
        spec_first_name(s.drop_first(), id)
    }
}

proof fn lemma_first_name_at(s: Seq<(u128, PlayerModel)>, id: u128, i: int)
    requires
        0 <= i < s.len(),
        s[i].0 == id,
        forall|n: int| 0 <= n < i ==> (#[trigger] s[n]).0 != id,
    ensures
        spec_first_name(s, id) == Some(s[i].1.name),
    decreases i,
{
    if i == 0 {
    } else {
        assert(s[0].0 != id);
        let t = s.drop_first();
        assert(t[i - 1] == s[i]);
        assert(forall|n: int| 0 <= n < i - 1 ==> (#[trigger] t[n]).0 != id);
        lemma_first_name_at(t, id, i - 1);
    }
}

proof fn lemma_first_name_none(s: Seq<(u128, PlayerModel)>, id: u128)
    requires
        forall|n: int| 0 <= n < s.len() ==> (#[trigger] s[n]).0 != id,
    ensures
        spec_first_name(s, id) is None,
    decreases s.len(),
{
    if s.len() > 0 {
        let t = s.drop_first();
        assert(forall|n: int| 0 <= n < t.len() ==> (#[trigger] t[n]).0 != id);
        lemma_first_name_none(t, id);
    }
}

/// The entity id of the first entry carrying the given id.
pub open spec fn spec_first_entity_id(s: Seq<(u128, PlayerModel)>, id: u128) -> Option<i32>
    decreases s.len(),
{
    if s.len() == 0 {
        None
    } else if s[0].0 == id {
        s[0].1.entity_id
    } else {
        spec_first_entity_id(s.drop_first(), id)
    }
}

proof fn lemma_first_entity_id_at(s: Seq<(u128, PlayerModel)>, id: u128, i: int)
    requires
        0 <= i < s.len(),
        s[i].0 == id,
        forall|n: int| 0 <= n < i ==> (#[trigger] s[n]).0 != id,
    ensures
        spec_first_entity_id(s, id) == s[i].1.entity_id,
    decreases i,
{
    if i == 0 {
    } else {
        assert(s[0].0 != id);
        let t = s.drop_first();
        assert(t[i - 1] == s[i]);
        assert(forall|n: int| 0 <= n < i - 1 ==> (#[trigger] t[n]).0 != id);
        lemma_first_entity_id_at(t, id, i - 1);
    }
}

proof fn lemma_first_entity_id_none(s: Seq<(u128, PlayerModel)>, id: u128)
    requires
        forall|n: int| 0 <= n < s.len() ==> (#[trigger] s[n]).0 != id,
    ensures
        spec_first_entity_id(s, id) is None,
    decreases s.len(),
{
    if s.len() > 0 {
        let t = s.drop_first();
        assert(forall|n: int| 0 <= n < t.len() ==> (#[trigger] t[n]).0 != id);
        lemma_first_entity_id_none(t, id);
    }
}

/// A packet whose only mirror effect is none at all: everything the
/// handler does not act on.
pub open spec fn packet_is_passive(p: &ServerPacket) -> bool {
    &&& !((*p) is BlockChange)
    &&& !((*p) is MultiBlockChange)
    &&& !((*p) is ChunkData)
    &&& !((*p) is UnloadChunk)
    &&& !((*p) is JoinGame)
    &&& !((*p) is SpawnPlayer)
    &&& !((*p) is EntityVelocity)
    &&& !((*p) is PlayerPositionAndLook)
    &&& !((*p) is PlayerList)
    &&& !((*p) is UpdateHealth)
}

/// The low 16 bits of the chunk-data bitmask select the 16 sections.
pub open spec fn spec_chunk_mask(primary_bitmask: i32) -> u16 {
    primary_bitmask as u16
}

/// The bitmask field of a chunk-data packet, zero elsewhere.
pub open spec fn packet_bitmask(p: ServerPacket) -> i32 {
    match p {
        ServerPacket::ChunkData { primary_bitmask, .. } => primary_bitmask,
        _ => 0,
    }
}

/// Truncate the bitmask to its 16 meaningful bits.
fn chunk_mask(primary_bitmask: i32) -> (r: u16)
    ensures
        r == spec_chunk_mask(primary_bitmask),
{
    primary_bitmask as u16
}

/// Squared Euclidean distance between two block positions.
pub open spec fn spec_dist2(p: BlockPosition, c: BlockPosition) -> int {
    (p.x - c.x) * (p.x - c.x) + (p.y - c.y) * (p.y - c.y) + (p.z - c.z) * (p.z - c.z)
}

/// Whether a position lies in the inclusive axis-aligned box of the
/// given radius around the centre.
pub open spec fn spec_in_aabb(p: BlockPosition, c: BlockPosition, d: int) -> bool {
    &&& c.x - d <= p.x <= c.x + d
    &&& c.y - d <= p.y <= c.y + d
    &&& c.z - d <= p.z <= c.z + d
}

/// Ascending by squared distance from the centre.
pub open spec fn dist_sorted(s: Seq<BlockPosition>, c: BlockPosition) -> bool {
    forall|i: int, j: int|
        0 <= i <= j < s.len() ==> spec_dist2(#[trigger] s[i], c) <= spec_dist2(#[trigger] s[j], c)
}

/// A stored block state with the sought id at this position.
pub open spec fn spec_id_match(s: GameState, p: BlockPosition, block_id: u16) -> bool {
    match s.spec_block_state_at(p) {
        Some(bs) => bs.spec_id() == block_id,
        None => false,
    }
}

/// Whether a vector already lists a position.
fn contains_pos(v: &Vec<BlockPosition>, p: BlockPosition) -> (r: bool)
    ensures
        r == v@.contains(p),
{
    let mut i: usize = 0;
    while i < v.len()
        invariant
            i <= v@.len(),
            forall|m: int| 0 <= m < i ==> v@[m] != p,
        decreases v@.len() - i,
    {
        if v[i] == p {
            return true;
        }
        i += 1;
    }
    false
}

/// No position is listed twice.
pub open spec fn positions_distinct(s: Seq<BlockPosition>) -> bool {
    forall|m: int, n: int| 0 <= m < n < s.len() ==> s[m] != s[n]
}

/// The squared distance, computed exactly in 128 bits.
fn dist2(p: BlockPosition, c: BlockPosition) -> (r: i128)
    ensures
        r == spec_dist2(p, c),
{
    let dx: i128 = (p.x as i128) - (c.x as i128);
    let dy: i128 = (p.y as i128) - (c.y as i128);
    let dz: i128 = (p.z as i128) - (c.z as i128);
    proof {
        assert(dx * dx <= 0x1_0000_0000 * 0x1_0000_0000 && dx * dx >= 0) by (nonlinear_arith)
            requires
                -0x1_0000_0000 <= dx <= 0x1_0000_0000,
        ;
        assert(dy * dy <= 0x1_0000_0000 * 0x1_0000_0000 && dy * dy >= 0) by (nonlinear_arith)
            requires
                -0x1_0000_0000 <= dy <= 0x1_0000_0000,
        ;
        assert(dz * dz <= 0x1_0000_0000 * 0x1_0000_0000 && dz * dz >= 0) by (nonlinear_arith)
            requires
                -0x1_0000_0000 <= dz <= 0x1_0000_0000,
        ;
    }
    dx * dx + dy * dy + dz * dz
}

/// Insert a position into a distance-sorted vector, keeping it
/// sorted.
#[verifier::rlimit(60)]
fn sorted_insert(v: &mut Vec<BlockPosition>, centre: BlockPosition, x: BlockPosition)
    requires
        dist_sorted(old(v)@, centre),
        positions_distinct(old(v)@),
        !old(v)@.contains(x),
    ensures
        dist_sorted(final(v)@, centre),
        positions_distinct(final(v)@),
        final(v)@.len() == old(v)@.len() + 1,
        forall|q: BlockPosition| final(v)@.contains(q) <==> (old(v)@.contains(q) || q == x),
{
    let xd = dist2(x, centre);
    let mut k: usize = 0;
    while k < v.len()
        invariant
            k <= v@.len(),
            dist_sorted(v@, centre),
            v@ == old(v)@,
            xd == spec_dist2(x, centre),
            forall|i: int|
                0 <= i < k ==> spec_dist2(#[trigger] v@[i], centre) <= spec_dist2(x, centre),
        ensures
            k <= v@.len(),
            dist_sorted(v@, centre),
            v@ == old(v)@,
            forall|i: int|
                0 <= i < k ==> spec_dist2(#[trigger] v@[i], centre) <= spec_dist2(x, centre),
            k < v@.len() ==> spec_dist2(v@[k as int], centre) > spec_dist2(x, centre),
        decreases v@.len() - k,
    {
        if dist2(v[k], centre) > xd {
            break ;
        }
        k += 1;
    }
    let ghost pre = v@;
    let ghost kk = k as int;
    v.insert(k, x);
    proof {
        pre.insert_ensures(kk, x);
        assert forall|i: int, j: int| 0 <= i <= j < v@.len() implies spec_dist2(
            #[trigger] v@[i],
            centre,
        ) <= spec_dist2(#[trigger] v@[j], centre) by {
            if i < kk {
                assert(v@[i] == pre[i]);
            } else if i == kk {
                assert(v@[i] == x);
            } else {
                assert(v@[i] == pre[i - 1]);
            }
            if j < kk {
                assert(v@[j] == pre[j]);
            } else if j == kk {
                assert(v@[j] == x);
            } else {
                assert(v@[j] == pre[j - 1]);
                assert(spec_dist2(pre[kk], centre) > spec_dist2(x, centre) || kk == pre.len());
            }
        }
        assert forall|m: int, n: int| 0 <= m < n < v@.len() implies v@[m] != v@[n] by {
            if m < kk {
                assert(v@[m] == pre[m]);
            } else if m == kk {
                assert(v@[m] == x);
            } else {
                assert(v@[m] == pre[m - 1]);
            }
            if n < kk {
                assert(v@[n] == pre[n]);
            } else if n == kk {
                assert(v@[n] == x);
            } else {
                assert(v@[n] == pre[n - 1]);
            }
            assert(forall|w: int| 0 <= w < pre.len() ==> pre[w] != x);
        }
        assert forall|q: BlockPosition| v@.contains(q) <==> (pre.contains(q) || q == x) by {
            if q == x {
                assert(v@[kk] == x);
                assert(v@.contains(q));
            }
            if pre.contains(q) {
                let m = choose|m: int| 0 <= m < pre.len() && pre[m] == q;
                if m < kk {
                    assert(v@[m] == q);
                } else {
                    assert(v@[m + 1] == q);
                }
                assert(v@.contains(q));
            }
            if v@.contains(q) && q != x {
                let m = choose|m: int| 0 <= m < v@.len() && v@[m] == q;
                if m < kk {
                    assert(pre[m] == q);
                    assert(pre.contains(q));
                } else if m == kk {
                    assert(v@[m] == x);
                } else {
                    assert(pre[m - 1] == q);
                    assert(pre.contains(q));
                }
            }
        }
    }
}

/// Re-order positions nearest-first from the centre, keeping exactly
/// the same members.
fn sort_by_distance(input: Vec<BlockPosition>, centre: BlockPosition) -> (r: Vec<BlockPosition>)
    requires
        positions_distinct(input@),
    ensures
        dist_sorted(r@, centre),
        positions_distinct(r@),
        r@.len() == input@.len(),
        forall|q: BlockPosition| r@.contains(q) <==> input@.contains(q),
{
    let mut r: Vec<BlockPosition> = Vec::new();
    let mut i: usize = 0;
    while i < input.len()
        invariant
            i <= input@.len(),
            r@.len() == i,
            dist_sorted(r@, centre),
            positions_distinct(r@),
            positions_distinct(input@),
            forall|q: BlockPosition|
                r@.contains(q) <==> exists|m: int| 0 <= m < i && input@[m] == q,
        decreases input@.len() - i,
    {
        let x = input[i];
        proof {
            if r@.contains(x) {
                let m = choose|m: int| 0 <= m < i && input@[m] == x;
                assert(input@[m] == input@[i as int]);
                assert(false);
            }
        }
        sorted_insert(&mut r, centre, x);
        proof {
            assert forall|q: BlockPosition| r@.contains(q) <==> exists|m: int|
                0 <= m < i + 1 && input@[m] == q by {
                if r@.contains(q) {
                    if q == x {
                        assert(input@[i as int] == q);
                    }
                }
                if exists|m: int| 0 <= m < i + 1 && input@[m] == q {
                    let m = choose|m: int| 0 <= m < i + 1 && input@[m] == q;
                    if m == i {
                        assert(q == x);
                    }
                }
            }
        }
        i += 1;
    }
    proof {
        assert forall|q: BlockPosition| r@.contains(q) <==> input@.contains(q) by {
            if input@.contains(q) {
                let m = choose|m: int| 0 <= m < input@.len() && input@[m] == q;
                assert(exists|n: int| 0 <= n < input@.len() && input@[n] == q);
            }
        }
    }
    r
}

impl GameState {
    /// Collect every position in the inclusive box whose stored block
    /// carries the given id, chunk by chunk.
    fn collect_block_ids_within(
        &self,
        block_id: u16,
        position: BlockPosition,
        distance: i32,
    ) -> (r: Vec<BlockPosition>)
        requires
            0 <= distance,
            i32::MIN <= position.x - distance,
            position.x + distance <= i32::MAX,
            i32::MIN <= position.y - distance,
            position.y + distance <= i32::MAX,
            i32::MIN <= position.z - distance,
            position.z + distance <= i32::MAX,
        ensures
            forall|m: int|
                0 <= m < r@.len() ==> spec_in_aabb(#[trigger] r@[m], position, distance as int)
                    && spec_id_match(*self, r@[m], block_id),
            forall|p: BlockPosition|
                spec_in_aabb(p, position, distance as int) && spec_id_match(*self, p, block_id)
                    ==> r@.contains(p),
            positions_distinct(r@),
    {
        let min_pos = BlockPosition {
            x: position.x - distance,
            y: position.y - distance,
            z: position.z - distance,
        };
        let max_pos = BlockPosition {
            x: position.x + distance,
            y: position.y + distance,
            z: position.z + distance,
        };
        let min_chunk = chunk_addr(min_pos);
        let max_chunk = chunk_addr(max_pos);
        proof {
            lemma_aabb_chunk_range(position, distance as int, min_pos, max_pos);
        }
        let mut result: Vec<BlockPosition> = Vec::new();
        let mut cx: i32 = min_chunk.x;
        while cx <= max_chunk.x
            invariant
                min_chunk.x <= cx <= max_chunk.x + 1,
                min_chunk.x == min_pos.x as int / 16,
                max_chunk.x == max_pos.x as int / 16,
                min_chunk.z == min_pos.z as int / 16,
                max_chunk.z == max_pos.z as int / 16,
                min_pos.x == position.x - distance,
                min_pos.y == position.y - distance,
                min_pos.z == position.z - distance,
                max_pos.x == position.x + distance,
                max_pos.y == position.y + distance,
                max_pos.z == position.z + distance,
                0 <= distance,
                crate::geom::chunk_coord_in_range(min_chunk.x as int),
                crate::geom::chunk_coord_in_range(max_chunk.x as int),
                crate::geom::chunk_coord_in_range(min_chunk.z as int),
                crate::geom::chunk_coord_in_range(max_chunk.z as int),
                forall|m: int|
                    0 <= m < result@.len() ==> spec_in_aabb(
                        #[trigger] result@[m],
                        position,
                        distance as int,
                    ) && spec_id_match(*self, result@[m], block_id),
                forall|p: BlockPosition|
                    spec_in_aabb(p, position, distance as int) && p.x as int / 16 < cx
                        && spec_id_match(*self, p, block_id) ==> result@.contains(p),
                positions_distinct(result@),
            decreases max_chunk.x + 1 - cx,
        {
            let mut cz: i32 = min_chunk.z;
            while cz <= max_chunk.z
                invariant
                    min_chunk.z <= cz <= max_chunk.z + 1,
                    min_chunk.x <= cx <= max_chunk.x,
                    min_chunk.x == min_pos.x as int / 16,
                    max_chunk.x == max_pos.x as int / 16,
                    min_chunk.z == min_pos.z as int / 16,
                    max_chunk.z == max_pos.z as int / 16,
                    min_pos.x == position.x - distance,
                    min_pos.y == position.y - distance,
                    min_pos.z == position.z - distance,
                    max_pos.x == position.x + distance,
                    max_pos.y == position.y + distance,
                    max_pos.z == position.z + distance,
                    0 <= distance,
                    crate::geom::chunk_coord_in_range(min_chunk.x as int),
                    crate::geom::chunk_coord_in_range(max_chunk.x as int),
                    crate::geom::chunk_coord_in_range(min_chunk.z as int),
                    crate::geom::chunk_coord_in_range(max_chunk.z as int),
                    forall|m: int|
                        0 <= m < result@.len() ==> spec_in_aabb(
                            #[trigger] result@[m],
                            position,
                            distance as int,
                        ) && spec_id_match(*self, result@[m], block_id),
                    forall|p: BlockPosition|
                        spec_in_aabb(p, position, distance as int) && (p.x as int / 16 < cx || (
                        p.x as int / 16 == cx && p.z as int / 16 < cz)) && spec_id_match(
                            *self,
                            p,
                            block_id,
                        ) ==> result@.contains(p),
                    positions_distinct(result@),
                decreases max_chunk.z + 1 - cz,
            {
                let key = chunk_key(cx, cz);
                match self.chunks.get(&key) {
                    Some(chunk) => {
                        let matches = chunk.find_matching_block_state(block_id);
                        let ghost cm = self.spec_chunks()[spec_chunk_key(cx, cz)]@;
                        let mut mi: usize = 0;
                        while mi < matches.len()
                            invariant
                                mi <= matches@.len(),
                                min_chunk.x <= cx <= max_chunk.x,
                                min_chunk.z <= cz <= max_chunk.z,
                                min_pos.x == position.x - distance,
                                min_pos.y == position.y - distance,
                                min_pos.z == position.z - distance,
                                max_pos.x == position.x + distance,
                                max_pos.y == position.y + distance,
                                max_pos.z == position.z + distance,
                                0 <= distance,
                                crate::geom::chunk_coord_in_range(cx as int),
                                crate::geom::chunk_coord_in_range(cz as int),
                                self.spec_chunks().contains_key(spec_chunk_key(cx, cz)),
                                cm == self.spec_chunks()[spec_chunk_key(cx, cz)]@,
                                forall|m: int|
                                    0 <= m < matches@.len() ==> (#[trigger] matches@[m]).valid()
                                        && cm.blocks[crate::geom::spec_local_index(
                                        matches@[m],
                                    )].spec_id() == block_id,
                                forall|idx: u16|
                                    cm.blocks[idx as int].spec_id() == block_id ==> exists|m: int|
                                        0 <= m < matches@.len() && crate::geom::spec_local_index(
                                            #[trigger] matches@[m],
                                        ) == idx,
                                forall|m: int|
                                    0 <= m < result@.len() ==> spec_in_aabb(
                                        #[trigger] result@[m],
                                        position,
                                        distance as int,
                                    ) && spec_id_match(*self, result@[m], block_id),
                                forall|p: BlockPosition|
                                    spec_in_aabb(p, position, distance as int) && (p.x as int / 16
                                        < cx || (p.x as int / 16 == cx && p.z as int / 16 < cz))
                                        && spec_id_match(*self, p, block_id)
                                        ==> result@.contains(p),
                                forall|p: BlockPosition|
                                    spec_in_aabb(p, position, distance as int) && p.x as int / 16
                                        == cx && p.z as int / 16 == cz && spec_id_match(
                                        *self,
                                        p,
                                        block_id,
                                    ) && (exists|m: int|
                                        0 <= m < mi && crate::geom::spec_local_index(
                                            #[trigger] matches@[m],
                                        ) == p.x as int % 16 + 16 * (p.z as int % 16) + 256 * p.y)
                                        ==> result@.contains(p),
                                positions_distinct(result@),
                            decreases matches@.len() - mi,
                        {
                            let la = matches[mi];
                            let ca = crate::geom::ChunkAddr { x: cx, z: cz };
                            let gp = crate::geom::to_global_coords(ca, la);
                            proof {
                                crate::geom::lemma_global_coords_round_trip(ca, la);
                            }
                            let ghost pre = result@;
                            if gp.x >= min_pos.x && gp.y >= min_pos.y && gp.z >= min_pos.z && gp.x
                                <= max_pos.x && gp.y <= max_pos.y && gp.z <= max_pos.z {
                                proof {
                                    assert(spec_id_match(*self, gp, block_id));
                                }
                                if !contains_pos(&result, gp) {
                                    result.push(gp);
                                }
                            }
                            proof {
                                assert(result@ == pre || (result@ =~= pre.push(gp)
                                    && !pre.contains(gp)));
                                assert forall|m: int, n: int|
                                    0 <= m < n < result@.len() implies result@[m] != result@[n] by {
                                    if result@ != pre && n == result@.len() - 1 {
                                        assert(result@[n] == gp);
                                        assert(result@[m] == pre[m]);
                                        assert(forall|w: int|
                                            0 <= w < pre.len() ==> pre[w] != gp);
                                    }
                                }
                                assert forall|p: BlockPosition|
                                    spec_in_aabb(p, position, distance as int) && (p.x as int / 16
                                        < cx || (p.x as int / 16 == cx && p.z as int / 16 < cz))
                                        && spec_id_match(*self, p, block_id)
                                        implies result@.contains(p) by {
                                    assert(pre.contains(p));
                                    let w = choose|w: int| 0 <= w < pre.len() && pre[w] == p;
                                    assert(result@[w] == p);
                                }
                                assert forall|p: BlockPosition|
                                    spec_in_aabb(p, position, distance as int) && p.x as int / 16
                                        == cx && p.z as int / 16 == cz && spec_id_match(
                                        *self,
                                        p,
                                        block_id,
                                    ) && (exists|m: int|
                                        0 <= m < mi + 1 && crate::geom::spec_local_index(
                                            #[trigger] matches@[m],
                                        ) == p.x as int % 16 + 16 * (p.z as int % 16) + 256
                                        * p.y) implies result@.contains(p) by {
                                    let m = choose|m: int|
                                        0 <= m < mi + 1 && crate::geom::spec_local_index(
                                            #[trigger] matches@[m],
                                        ) == p.x as int % 16 + 16 * (p.z as int % 16) + 256 * p.y;
                                    if m < mi {
                                        assert(pre.contains(p));
                                        let w = choose|w: int| 0 <= w < pre.len() && pre[w] == p;
                                        assert(result@[w] == p);
                                    } else {
                                        lemma_same_chunk_same_pos(p, gp);
                                        assert(p == gp);
                                        if pre.contains(p) {
                                            let w = choose|w: int|
                                                0 <= w < pre.len() && pre[w] == p;
                                            assert(result@[w] == p);
                                        } else {
                                            assert(result@[result@.len() - 1] == p);
                                        }
                                    }
                                }
                            }
                            mi += 1;
                        }
                        proof {
                            assert forall|p: BlockPosition|
                                spec_in_aabb(p, position, distance as int) && (p.x as int / 16 < cx
                                    || (p.x as int / 16 == cx && p.z as int / 16 < cz + 1))
                                    && spec_id_match(*self, p, block_id) implies result@.contains(
                                p,
                            ) by {
                                if p.x as int / 16 == cx && p.z as int / 16 == cz {
                                    assert(0 <= p.y < 256);
                                    assert((p.x as int / 16) as i32 == cx);
                                    assert((p.z as int / 16) as i32 == cz);
                                    let idx = p.x as int % 16 + 16 * (p.z as int % 16) + 256 * p.y;
                                    lemma_same_chunk_same_pos(p, p);
                                    assert(0 <= idx < 65536);
                                    assert(cm.blocks[idx].spec_id() == block_id);
                                    let idx16 = idx as u16;
                                    assert(idx16 as int == idx);
                                    assert(cm.blocks[idx16 as int].spec_id() == block_id);
                                    let mm = choose|m: int|
                                        0 <= m < matches@.len() && crate::geom::spec_local_index(
                                            #[trigger] matches@[m],
                                        ) == idx16;
                                    assert(crate::geom::spec_local_index(matches@[mm]) == idx);
                                    assert(exists|m: int|
                                        0 <= m < matches@.len() && crate::geom::spec_local_index(
                                            #[trigger] matches@[m],
                                        ) == idx);
                                }
                            }
                        }
                    },
                    None => {
                        proof {
                            assert forall|p: BlockPosition|
                                spec_in_aabb(p, position, distance as int) && (p.x as int / 16 < cx
                                    || (p.x as int / 16 == cx && p.z as int / 16 < cz + 1))
                                    && spec_id_match(*self, p, block_id) implies result@.contains(
                                p,
                            ) by {
                                if p.x as int / 16 == cx && p.z as int / 16 == cz {
                                    assert((p.x as int / 16) as i32 == cx);
                                    assert((p.z as int / 16) as i32 == cz);
                                    assert(self.spec_block_state_at(p) is None);
                                }
                            }
                        }
                    },
                }
                cz += 1;
            }
            proof {
                assert forall|p: BlockPosition|
                    spec_in_aabb(p, position, distance as int) && p.x as int / 16 < cx + 1
                        && spec_id_match(*self, p, block_id) implies result@.contains(p) by {
                    if p.x as int / 16 == cx {
                        lemma_chunk_z_in_range(p, position, distance as int, min_pos, max_pos);
                    }
                }
            }
            cx += 1;
        }
        proof {
            assert forall|p: BlockPosition|
                spec_in_aabb(p, position, distance as int) && spec_id_match(*self, p, block_id)
                    implies result@.contains(p) by {
                lemma_chunk_x_in_range(p, position, distance as int, min_pos, max_pos);
            }
        }
        result
    }

    /// Every position within the inclusive box of the given radius
    /// whose stored block carries the given id, nearest first by
    /// squared Euclidean distance from the centre.
    pub fn find_block_ids_within(
        &self,
        block_id: u16,
        position: BlockPosition,
        distance: i32,
    ) -> (r: Vec<BlockPosition>)
        requires
            0 <= distance,
            i32::MIN <= position.x - distance,
            position.x + distance <= i32::MAX,
            i32::MIN <= position.y - distance,
            position.y + distance <= i32::MAX,
            i32::MIN <= position.z - distance,
            position.z + distance <= i32::MAX,
        ensures
            forall|m: int|
                0 <= m < r@.len() ==> spec_in_aabb(#[trigger] r@[m], position, distance as int)
                    && spec_id_match(*self, r@[m], block_id),
            forall|p: BlockPosition|
                spec_in_aabb(p, position, distance as int) && spec_id_match(*self, p, block_id)
                    ==> r@.contains(p),
            positions_distinct(r@),
            dist_sorted(r@, position),
    {
        let found = self.collect_block_ids_within(block_id, position, distance);
        let r = sort_by_distance(found, position);
        proof {
            assert forall|m: int| 0 <= m < r@.len() implies spec_in_aabb(
                #[trigger] r@[m],
                position,
                distance as int,
            ) && spec_id_match(*self, r@[m], block_id) by {
                assert(r@.contains(r@[m]));
            }
        }
        r
    }
}

/// A position's chunk coordinate lies between the box corners'.
proof fn lemma_chunk_x_in_range(
    p: BlockPosition,
    c: BlockPosition,
    d: int,
    min_pos: BlockPosition,
    max_pos: BlockPosition,
)
    requires
        spec_in_aabb(p, c, d),
        min_pos.x == c.x - d,
        max_pos.x == c.x + d,
    ensures
        min_pos.x as int / 16 <= p.x as int / 16 <= max_pos.x as int / 16,
{
    vstd::arithmetic::div_mod::lemma_div_is_ordered(min_pos.x as int, p.x as int, 16);
    vstd::arithmetic::div_mod::lemma_div_is_ordered(p.x as int, max_pos.x as int, 16);
}

proof fn lemma_chunk_z_in_range(
    p: BlockPosition,
    c: BlockPosition,
    d: int,
    min_pos: BlockPosition,
    max_pos: BlockPosition,
)
    requires
        spec_in_aabb(p, c, d),
        min_pos.z == c.z - d,
        max_pos.z == c.z + d,
    ensures
        min_pos.z as int / 16 <= p.z as int / 16 <= max_pos.z as int / 16,
{
    vstd::arithmetic::div_mod::lemma_div_is_ordered(min_pos.z as int, p.z as int, 16);
    vstd::arithmetic::div_mod::lemma_div_is_ordered(p.z as int, max_pos.z as int, 16);
}

proof fn lemma_aabb_chunk_range(
    c: BlockPosition,
    d: int,
    min_pos: BlockPosition,
    max_pos: BlockPosition,
)
    requires
        d >= 0,
        min_pos.x == c.x - d,
        max_pos.x == c.x + d,
        min_pos.z == c.z - d,
        max_pos.z == c.z + d,
    ensures
        min_pos.x as int / 16 <= max_pos.x as int / 16,
        min_pos.z as int / 16 <= max_pos.z as int / 16,
{
    vstd::arithmetic::div_mod::lemma_div_is_ordered(min_pos.x as int, max_pos.x as int, 16);
    vstd::arithmetic::div_mod::lemma_div_is_ordered(min_pos.z as int, max_pos.z as int, 16);
}

/// Whether the stored block at a position can be walked through.  An
/// unloaded position is not walkable for the path graph.
pub open spec fn spec_passable_at(s: GameState, p: BlockPosition) -> bool {
    match s.spec_block_state_at(p) {
        Some(bs) => bs.spec_passable(),
        None => false,
    }
}

/// A position offset by small deltas, when it stays inside `i32`.
pub open spec fn spec_offset(p: BlockPosition, dx: int, dy: int, dz: int) -> Option<
    BlockPosition,
> {
    if i32::MIN <= p.x + dx <= i32::MAX && i32::MIN <= p.y + dy <= i32::MAX && i32::MIN <= p.z + dz
        <= i32::MAX {
        Some(BlockPosition { x: (p.x + dx) as i32, y: (p.y + dy) as i32, z: (p.z + dz) as i32 })
    } else {
        None
    }
}

/// Passability of an offset that may have left the world: gone is not
/// passable.
pub open spec fn spec_offset_passable(s: GameState, q: Option<BlockPosition>) -> bool {
    match q {
        Some(p) => spec_passable_at(s, p),
        None => false,
    }
}

/// The walkable step a cardinal direction contributes, if any: a
/// straight step for cost 1 when feet and head room are clear over a
/// solid floor; a drop of one block for cost 2 when the floor is
/// clear but the block below it is solid; a step up for cost 2 when
/// the way up is clear and the target floor is solid.
pub open spec fn spec_dir_step(s: GameState, pos: BlockPosition, dx: int, dz: int) -> Seq<
    (BlockPosition, i64),
> {
    let at = spec_offset(pos, dx, 0, dz);
    let up = spec_offset(pos, dx, 1, dz);
    let up2 = spec_offset(pos, dx, 2, dz);
    let down = spec_offset(pos, dx, -1, dz);
    let down2 = spec_offset(pos, dx, -2, dz);
    if spec_offset_passable(s, up) {
        if spec_offset_passable(s, at) {
            if !spec_offset_passable(s, down) {
                seq![(at.unwrap(), 1i64)]
            } else if !spec_offset_passable(s, down2) {
                seq![(down.unwrap(), 2i64)]
            } else {
                Seq::empty()
            }
        } else if spec_offset_passable(s, up2) {
            seq![(up.unwrap(), 2i64)]
        } else {
            Seq::empty()
        }
    } else {
        Seq::empty()
    }
}

/// All walkable successors of a position, west, north, east, south.
pub open spec fn spec_walkable_successors(s: GameState, pos: BlockPosition) -> Seq<
    (BlockPosition, i64),
> {
    spec_dir_step(s, pos, -1, 0) + spec_dir_step(s, pos, 0, -1) + spec_dir_step(s, pos, 1, 0)
        + spec_dir_step(s, pos, 0, 1)
}

/// An offset position, `None` when it leaves `i32`.
fn offset_pos(p: BlockPosition, dx: i32, dy: i32, dz: i32) -> (r: Option<BlockPosition>)
    ensures
        r == spec_offset(p, dx as int, dy as int, dz as int),
{
    let ox = p.x.checked_add(dx);
    let oy = p.y.checked_add(dy);
    let oz = p.z.checked_add(dz);
    match (ox, oy, oz) {
        (Some(x), Some(y), Some(z)) => Some(BlockPosition { x, y, z }),
        _ => None,
    }
}

impl GameState {
    /// Whether an offset position is loaded and passable.
    fn offset_passable(&self, q: &Option<BlockPosition>) -> (r: bool)
        ensures
            r == spec_offset_passable(*self, *q),
    {
        match q {
            Some(p) => match self.block_state_at(*p) {
                Some(bs) => bs.is_passable(),
                None => false,
            },
            None => false,
        }
    }

    /// Append the walkable step of one cardinal direction.
    fn check_direction(&self, pos: BlockPosition, dx: i32, dz: i32, out: &mut Vec<
        (BlockPosition, i64),
    >)
        ensures
            final(out)@ == old(out)@ + spec_dir_step(*self, pos, dx as int, dz as int),
    {
        let at = offset_pos(pos, dx, 0, dz);
        let up = offset_pos(pos, dx, 1, dz);
        let up2 = offset_pos(pos, dx, 2, dz);
        let down = offset_pos(pos, dx, -1, dz);
        let down2 = offset_pos(pos, dx, -2, dz);
        if self.offset_passable(&up) {
            if self.offset_passable(&at) {
                if !self.offset_passable(&down) {
                    match at {
                        Some(q) => out.push((q, 1)),
                        None => {},
                    }
                } else if !self.offset_passable(&down2) {
                    match down {
                        Some(q) => out.push((q, 2)),
                        None => {},
                    }
                }
            } else if self.offset_passable(&up2) {
                match up {
                    Some(q) => out.push((q, 2)),
                    None => {},
                }
            }
        }
        proof {
            assert(final(out)@ =~= old(out)@ + spec_dir_step(*self, pos, dx as int, dz as int));
        }
    }

    /// The walkable successors of a position, with their edge costs.
    pub fn find_walkable_positions(&self, pos: &BlockPosition) -> (r: Vec<(BlockPosition, i64)>)
        ensures
            r@ == spec_walkable_successors(*self, *pos),
    {
        let mut out: Vec<(BlockPosition, i64)> = Vec::new();
        self.check_direction(*pos, -1, 0, &mut out);
        self.check_direction(*pos, 0, -1, &mut out);
        self.check_direction(*pos, 1, 0, &mut out);
        self.check_direction(*pos, 0, 1, &mut out);
        proof {
            assert(out@ =~= spec_walkable_successors(*self, *pos));
        }
        out
    }
}

/// The A* heuristic: Manhattan distance to the destination plus one.
fn path_heuristic(p: BlockPosition, dest: BlockPosition) -> (r: i64)
    ensures
        r == crate::geom::spec_manhattan(p, dest) + 1,
{
    crate::geom::manhattan_distance(p, dest) + 1
}

/// Arrival is adjacent-enough: Manhattan distance below two.
fn path_goal(p: BlockPosition, dest: BlockPosition) -> (r: bool)
    ensures
        r == (crate::geom::spec_manhattan(p, dest) < 2),
{
    crate::geom::manhattan_distance(p, dest) < 2
}

/// A well-formed walk result: starts at the start node, ends
/// adjacent-enough to the destination, and steps only along edges the
/// walkable-successors relation emits.
pub open spec fn spec_path_ok(
    s: GameState,
    start: BlockPosition,
    dest: BlockPosition,
    path: Seq<BlockPosition>,
) -> bool {
    &&& path.len() >= 1
    &&& path[0] == start
    &&& crate::geom::spec_manhattan(path[path.len() - 1], dest) < 2
    &&& forall|i: int|
        0 <= i < path.len() - 1 ==> exists|m: int|
            0 <= m < spec_walkable_successors(s, #[trigger] path[i]).len() && (
            #[trigger] spec_walkable_successors(s, path[i])[m]).0 == path[i + 1]
}

/// Relies on pathfinding's astar: the returned node sequence starts
/// at the start node, ends at a node satisfying the success test, and
/// steps only along edges the successors function emitted.  `None`
/// comes only after the whole reachable subgraph is exhausted — it is
/// finite here, since walkable successors need loaded blocks — so a
/// well-formed walk to the goal exists exactly when one is returned.
#[verifier::external_body]
fn astar_search(gs: &GameState, start: BlockPosition, dest: BlockPosition) -> (r: Option<
    Vec<BlockPosition>,
>)
    ensures
        r matches Some(path) ==> spec_path_ok(*gs, start, dest, path@),
        r is None ==> !exists|path: Seq<BlockPosition>| spec_path_ok(*gs, start, dest, path),
{
    pathfinding::directed::astar::astar(
        &start,
        |p: &BlockPosition| gs.find_walkable_positions(p),
        |p: &BlockPosition| path_heuristic(*p, dest),
        |p: &BlockPosition| path_goal(*p, dest),
    ).map(|pr| pr.0)
}

impl GameState {
    /// An A* path from start to within Manhattan distance one of the
    /// destination, over the walkable subgraph of the loaded chunks.
    /// Every hop of the returned sequence is one of the walkable steps
    /// from its predecessor, and `None` comes back only when no
    /// well-formed walk to the goal exists at all.
    #[verifier::rlimit(60)]
    pub fn find_path_to(&self, start: BlockPosition, dest: BlockPosition) -> (r: Option<
        Vec<BlockPosition>,
    >)
        ensures
            r matches Some(path) ==> spec_path_ok(*self, start, dest, path@),
            r is None ==> !exists|path: Seq<BlockPosition>| spec_path_ok(*self, start, dest, path),
    {
        astar_search(self, start, dest)
    }
}

// ---------------------------------------------------------------------
// The block store's governing law: a sequence of block writes reads
// back as the last write
// ---------------------------------------------------------------------

/// Every chunk model in the map spans the whole column.
pub open spec fn map_wf(m: Map<u64, ChunkModel>) -> bool {
    forall|k: u64| m.contains_key(k) ==> (#[trigger] m[k]).wf()
}

/// The block read on a chunk-model map: `None` while the position's
/// chunk is absent or the height is outside the world.
pub open spec fn spec_map_block_at(m: Map<u64, ChunkModel>, p: BlockPosition) -> Option<
    BlockState,
> {
    if 0 <= p.y < 256 {
        let key = spec_chunk_key((p.x as int / 16) as i32, (p.z as int / 16) as i32);
        if m.contains_key(key) {
            Some(m[key].blocks[p.x as int % 16 + 16 * (p.z as int % 16) + 256 * p.y])
        } else {
            None
        }
    } else {
        None
    }
}

/// A sequence of block writes folded over the map, first to last.
pub open spec fn spec_apply_writes(
    m: Map<u64, ChunkModel>,
    writes: Seq<(BlockPosition, BlockState)>,
) -> Map<u64, ChunkModel>
    decreases writes.len(),
{
    if writes.len() == 0 {
        m
    } else {
        spec_set_block(spec_apply_writes(m, writes.drop_last()), writes.last().0, writes.last().1)
    }
}

/// The mirror's own read agrees with the map-level read of its chunk
/// models.
pub proof fn lemma_block_state_at_models(s: GameState, p: BlockPosition)
    ensures
        s.spec_block_state_at(p) == spec_map_block_at(s.spec_chunk_models(), p),
{
}

proof fn lemma_set_block_wf(m: Map<u64, ChunkModel>, p: BlockPosition, st: BlockState)
    requires
        map_wf(m),
    ensures
        map_wf(spec_set_block(m, p, st)),
        forall|k: u64| spec_set_block(m, p, st).contains_key(k) == m.contains_key(k),
{
    let m2 = spec_set_block(m, p, st);
    assert forall|k: u64| m2.contains_key(k) implies (#[trigger] m2[k]).wf() by {
        assert(m.contains_key(k) ==> m[k].wf());
    }
}

proof fn lemma_set_block_same(m: Map<u64, ChunkModel>, p: BlockPosition, st: BlockState)
    requires
        map_wf(m),
    ensures
        spec_map_block_at(spec_set_block(m, p, st), p) == (if spec_map_block_at(m, p) is Some {
            Some(st)
        } else {
            None::<BlockState>
        }),
{
    lemma_same_chunk_same_pos(p, p);
}

proof fn lemma_set_block_other(
    m: Map<u64, ChunkModel>,
    p: BlockPosition,
    st: BlockState,
    q: BlockPosition,
)
    requires
        map_wf(m),
        q != p,
    ensures
        spec_map_block_at(spec_set_block(m, p, st), q) == spec_map_block_at(m, q),
{
    lemma_chunk_key_injective(
        (q.x as int / 16) as i32,
        (q.z as int / 16) as i32,
        (p.x as int / 16) as i32,
        (p.z as int / 16) as i32,
    );
    lemma_same_chunk_same_pos(q, p);
}

proof fn lemma_apply_writes_wf(m: Map<u64, ChunkModel>, writes: Seq<(BlockPosition, BlockState)>)
    requires
        map_wf(m),
    ensures
        map_wf(spec_apply_writes(m, writes)),
        forall|k: u64| spec_apply_writes(m, writes).contains_key(k) == m.contains_key(k),
    decreases writes.len(),
{
    if writes.len() > 0 {
        lemma_apply_writes_wf(m, writes.drop_last());
        lemma_set_block_wf(
            spec_apply_writes(m, writes.drop_last()),
            writes.last().0,
            writes.last().1,
        );
    }
}

/// After any sequence of block writes, the read at a position is the
/// last write to it when its chunk is loaded, and `None` when it is
/// not (an unloaded chunk swallows writes and answers no reads).
pub proof fn lemma_last_write_wins(
    m: Map<u64, ChunkModel>,
    writes: Seq<(BlockPosition, BlockState)>,
    p: BlockPosition,
    j: int,
)
    requires
        map_wf(m),
        0 <= j < writes.len(),
        writes[j].0 == p,
        forall|k: int| j < k < writes.len() ==> (#[trigger] writes[k]).0 != p,
    ensures
        spec_map_block_at(spec_apply_writes(m, writes), p) == (if spec_map_block_at(m, p)
            is Some {
            Some(writes[j].1)
        } else {
            None::<BlockState>
        }),
    decreases writes.len(),
{
    lemma_apply_writes_wf(m, writes.drop_last());
    if j == writes.len() - 1 {
        lemma_set_block_same(spec_apply_writes(m, writes.drop_last()), p, writes.last().1);
        lemma_writes_preserve_presence(m, writes.drop_last(), p);
    } else {
        assert(writes.last().0 != p);
        lemma_set_block_other(
            spec_apply_writes(m, writes.drop_last()),
            writes.last().0,
            writes.last().1,
            p,
        );
        assert(forall|k: int|
            j < k < writes.drop_last().len() ==> (#[trigger] writes.drop_last()[k]).0 != p);
        lemma_last_write_wins(m, writes.drop_last(), p, j);
    }
}

/// A position reads back `Some` after the writes exactly when it did
/// before them: writes load and unload nothing.
pub proof fn lemma_writes_preserve_presence(
    m: Map<u64, ChunkModel>,
    writes: Seq<(BlockPosition, BlockState)>,
    p: BlockPosition,
)
    requires
        map_wf(m),
    ensures
        spec_map_block_at(spec_apply_writes(m, writes), p) is Some == spec_map_block_at(m, p)
            is Some,
    decreases writes.len(),
{
    if writes.len() > 0 {
        lemma_writes_preserve_presence(m, writes.drop_last(), p);
        lemma_apply_writes_wf(m, writes.drop_last());
        let mprev = spec_apply_writes(m, writes.drop_last());
        if writes.last().0 == p {
            lemma_set_block_same(mprev, p, writes.last().1);
        } else {
            lemma_set_block_other(mprev, writes.last().0, writes.last().1, p);
        }
    }
}

} // verus!
