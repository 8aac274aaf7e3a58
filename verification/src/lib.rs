//! Simulation core of a tile-based real-time tactics game: a procedural
//! dungeon builder and the passes that advance every entity by one tick.
//!
//! The library holds no window, no sprite and no clock. It is told what the
//! player did and how much time went by, and it answers with the state of
//! the world: where every entity stands, which frame of which sheet it
//! shows, who is after whom, and who is gone.
//!
//! * [`world`] is the entity store, and [`components`] what an entity may
//!   carry.
//! * [`resources`] builds the dungeon: rooms, tunnels, walls, floor shapes,
//!   and the tiles and units that the world starts with.
//! * [`systems`] holds the passes of a tick and the order in which they run.
//! * [`units`] is the arithmetic: every length, speed, duration and health
//!   value is a whole number of thousandths, so that each step of the
//!   simulation gives the same result on every machine.
//! * [`random`] is the one place where the library calls code that it does
//!   not prove: the random source of the dungeon builder.
//!
//! Every function states what it does as a contract, and every contract is
//! proved. Each pass of a tick is described by a function from the store
//! before it to the store after it, so that what a tick does is the
//! composition of those functions and nothing else.

use vstd::prelude::*;

pub mod components;
pub mod random;
pub mod resources;
pub mod systems;
pub mod units;
pub mod world;

verus! {

/// Height of the arena, in whole world units.
pub const ARENA_HEIGHT: i32 = 640;

/// Width of the arena, in whole world units.
pub const ARENA_WIDTH: i32 = 1280;

/// Side of one square tile, in whole world units.
pub const TILE_WIDTH: i32 = 16;

/// Centre of the tile with the given index along one axis, in thousandths of
/// a unit: the index times the tile's side, and half a side more.
pub open spec fn tile_center(index: int) -> i32 {
    units::clamp_i32((index * TILE_WIDTH + TILE_WIDTH / 2) * units::UNIT) as i32
}

/// Centre of the tile with the given index along one axis, in thousandths of a unit.
pub fn calc_tile_center(x: usize) -> (c: i32)
    ensures
        c == tile_center(x as int),
{
    if x > 134_217 {
        i32::MAX
    } else {
        let index: i32 = x as i32;
        (index * TILE_WIDTH + TILE_WIDTH / 2) * units::UNIT
    }
}

} // verus!
