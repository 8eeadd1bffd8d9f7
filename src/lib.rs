//! Core of a 2D tile-based game client: player components and the rules that
//! move them each tick, sprite sheets and their animation cursors, a catalog of
//! named sprites, the render queue that turns requests into abstract draw
//! commands, and tile-map decoding against several tilesets.

pub mod models;
pub mod rendering;
pub mod util;
