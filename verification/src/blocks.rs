//! Block type bytes of the Classic protocol that this server places.

use vstd::prelude::*;

verus! {

pub const AIR: u8 = 0;

pub const STONE: u8 = 1;

pub const GRASS: u8 = 2;

pub const DIRT: u8 = 3;

pub const WATER: u8 = 8;

pub const GOLD_ORE: u8 = 14;

pub const IRON_ORE: u8 = 15;

pub const COAL_ORE: u8 = 16;

pub const LOG: u8 = 17;

pub const LEAVES: u8 = 18;

pub const ROSE: u8 = 38;

} // verus!
