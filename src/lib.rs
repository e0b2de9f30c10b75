//! A small software-rendered tile and sprite engine: an RGBA8 framebuffer
//! with bounds-checked pixel writes, sprites blitted row by row with
//! clipping, a tile grid placed by sequence position and a scrolling camera,
//! and a player whose jump and fall follow a discrete-time state machine.

pub mod buffer;
pub mod color;
pub mod input;
pub mod level;
pub mod player;
pub mod sprite;
pub mod tile;
pub mod world;
