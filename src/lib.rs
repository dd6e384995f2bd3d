//! Level generation for a small terminal roguelike: rooms, walls, doors and
//! the tunnels between them, carved into a grid of tile codes.

pub mod actions;
pub mod discovered;
pub mod game;
pub mod geometry;
pub mod grid;
pub mod level;
pub mod reach;
mod rng;
pub mod tiles;

pub use discovered::DiscoveredMap;
pub use game::{next_axis, Game};
pub use geometry::{Rect, Vec2, RECS_PER_LEVEL, SCREEN_H, SCREEN_W};
pub use level::{ROOM_MAX_H, ROOM_MAX_W, ROOM_MIN_H, ROOM_MIN_W};
pub use tiles::{
    Tile, TileAction, CORRIDOR, DOOR_CLOSED, DOOR_OPEN, EMPTY, FLOOR, STAIRS_DOWN, WALL_HORIZONTAL,
    WALL_VERTICAL,
};
