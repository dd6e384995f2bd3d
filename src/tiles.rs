use vstd::prelude::*;

verus! {

/// Nothing carved yet; also what lies outside the map.
pub const EMPTY: i32 = 0;

/// The inside of a room.
pub const FLOOR: i32 = 1;

/// A tunnel cell between rooms.
pub const CORRIDOR: i32 = 2;

/// The left or right border of a room.
pub const WALL_VERTICAL: i32 = 3;

/// The top or bottom border of a room.
pub const WALL_HORIZONTAL: i32 = 4;

/// A door that blocks movement until opened.
pub const DOOR_CLOSED: i32 = 5;

/// A door that can be walked through.
pub const DOOR_OPEN: i32 = 6;

/// The staircase to the next level.
pub const STAIRS_DOWN: i32 = 7;

/// A wall of either orientation.
pub open spec fn is_wall(c: i32) -> bool {
    c == WALL_VERTICAL || c == WALL_HORIZONTAL
}

/// A cell that a path may cross: anything but empty space and walls.
pub open spec fn is_passable(c: i32) -> bool {
    c != EMPTY && !is_wall(c)
}

} // verus!

verus! {

/// What happens when the player runs into, or acts on, a tile.
#[derive(Clone, Copy, Debug, PartialEq, Eq, Structural)]
pub enum TileAction {
    Nothing,
    OpenDoor,
    CloseDoor,
    Descend,
}

/// How one tile code looks and behaves.
#[derive(Clone, Debug)]
pub struct Tile {
    pub collidable: bool,
    pub char: String,
    pub ri_action: TileAction,
}

} // verus!

verus! {

impl Default for Tile {
    /// A plain floor tile: walkable, drawn as `.`, and doing nothing when bumped.
    fn default() -> (r: Self)
        ensures
            !r.collidable,
            r.char@ == "."@,
            r.ri_action == TileAction::Nothing,
    {
        Tile { collidable: false, char: ".".to_string(), ri_action: TileAction::Nothing }
    }
}

} // verus!
