//! Simulation core of a grid-based box-pushing puzzle game.
//!
//! The library owns the world state (map, entities, win condition), reacts to
//! discrete gameplay events, and produces a draw-ready frame description.
//! Presentation (window, audio, input capture) is left to an unverified host.

use vstd::prelude::*;

pub mod components;
pub mod entities;
pub mod event_system;
pub mod events;
pub mod gameplay_state_system;
pub mod map;
pub mod rendering_system;
pub mod scheduler;
pub mod world;

verus! {

/// Side length of one grid tile, in unscaled pixels. The host applies its own
/// scale factor on top of the pixel coordinates the compositor produces.
pub const TILE_WIDTH: u32 = 32;

/// Vertical padding around the text overlays, in unscaled pixels.
pub const TEXT_PADDING: u32 = 10;

/// Height of one line of overlay text, in unscaled pixels.
pub const TEXT_SIZE: u32 = 20;

/// Paint layer of floor tiles: beneath everything else.
pub const FLOOR_Z: u8 = 0;

/// Paint layer of box spots: above the floor, below the movables.
pub const BOX_SPOT_Z: u8 = 1;

/// Paint layer of walls.
pub const WALL_Z: u8 = 2;

/// Paint layer of boxes.
pub const BOX_Z: u8 = 2;

/// Paint layer of the player.
pub const PLAYER_Z: u8 = 2;

} // verus!
