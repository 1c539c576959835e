//! Fixed numbers of the rules.

use vstd::prelude::*;

verus! {

/// Game state ticks per second.
pub const TICKS_PER_SECOND: u32 = 30;

/// Longest flight of a missile, in seconds.
pub const MISSILE_TIME_TO_LIVE: u32 = 30;

/// Longest flight of a missile, in ticks.
pub const MISSILE_TICKS_TO_LIVE: u32 = MISSILE_TIME_TO_LIVE * TICKS_PER_SECOND;

/// Bit pattern of the highest launch speed a player may ask for: the
/// single-precision number ten.
pub const MISSILE_MAX_VELOCITY_BITS: u32 = 0x4120_0000;

/// How often a position is drawn for one entity before map generation gives
/// up on it.
pub const MAX_PLACE_ENTITY_TRIES: usize = 256;

} // verus!
