//! Interaction and movement core of a turn-based tactics game on a hex grid:
//! hex coordinates, the board registry, click and hover resolution, unit
//! selection with its movement range, path planning and waypoint advance,
//! and the bookkeeping of overlay tiles that mirror per-tile flags.

pub mod hex;
pub mod board;
pub mod movement;
pub mod layers;
pub mod states;
pub mod input;
pub mod game;
pub mod overlay;
