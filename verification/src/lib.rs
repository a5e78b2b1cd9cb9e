//! A headless client library for a blocky voxel-world multiplayer game.
//!
//! The crate mirrors the server's world state (chunks of blocks, players,
//! the tick clock), speaks the length-prefixed binary packet protocol,
//! and exposes pure, verified decision logic for the surrounding
//! connection loop: packet effects on the mirror, keep-alive and teleport
//! reflexes, event matching, and an A*-based pathfinder.

pub mod blocks;
pub mod chunk;
pub mod clock;
pub mod events;
pub mod gamestate;
pub mod geom;
pub mod jsonval;
pub mod packets;
pub mod session;
pub mod wire;

use vstd::prelude::*;

verus! {

/// Width of a chunk column in blocks along x and z.
pub const CHUNK_WIDTH: u8 = 16;

} // verus!
