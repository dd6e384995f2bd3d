use vstd::prelude::*;

use crate::game::Game;
use crate::geometry::{SCREEN_H, SCREEN_W};
use crate::grid::{set_tile, tile_at};
use crate::tiles::{Tile, TileAction, DOOR_CLOSED, DOOR_OPEN};

verus! {

/// `new` is `old` after `action` ran on the cell at `(x, y)`: a door there opens
/// or closes, or the game moves to a new level.
pub open spec fn action_done(old: Game, new: Game, action: TileAction, x: int, y: int) -> bool {
    match action {
        TileAction::Nothing => new == old,
        TileAction::OpenDoor => new.same_but_map(&old) && new.grid() == set_tile(old.grid(), x, y, DOOR_OPEN),
        TileAction::CloseDoor => new.same_but_map(&old) && new.grid() == set_tile(
            old.grid(),
            x,
            y,
            DOOR_CLOSED,
        ),
        TileAction::Descend => {
            &&& new.running == old.running
            &&& new.tile_index@ == old.tile_index@
            &&& new.holds_new_level()
        },
    }
}

impl Tile {
    /// Runs this tile's action on the cell at `(x, y)` of `game`.
    pub fn interact(&self, game: &mut Game, x: i32, y: i32)
        ensures
            action_done(*old(game), *final(game), self.ri_action, x as int, y as int),
    {
        game.run_action(self.ri_action, x, y);
    }
}

impl Game {
    /// The tile that describes the code at `(x, y)`.
    pub fn get_map_tile(&self, x: i32, y: i32) -> (r: &Tile)
        requires
            0 <= tile_at(self.grid(), x as int, y as int) < self.tile_index@.len(),
        ensures
            *r == self.tile_index@[tile_at(self.grid(), x as int, y as int) as int],
    {
        let id = self.get_map_tile_id(x, y);
        &self.tile_index[id as usize]
    }

    /// The index of the tile that describes the code at `(x, y)`, if the table
    /// has one.
    pub open spec fn tile_index_at(&self, x: int, y: int) -> Option<int> {
        let id = tile_at(self.grid(), x, y);
        if 0 <= id < self.tile_index@.len() {
            Some(id as int)
        } else {
            None
        }
    }

    /// Runs `action` on the cell at `(x, y)`.
    pub fn run_action(&mut self, action: TileAction, x: i32, y: i32)
        ensures
            action_done(*old(self), *final(self), action, x as int, y as int),
    {
        match action {
            TileAction::Nothing => {},
            TileAction::OpenDoor => self.set_cell(x as i64, y as i64, DOOR_OPEN),
            TileAction::CloseDoor => self.set_cell(x as i64, y as i64, DOOR_CLOSED),
            TileAction::Descend => self.enter_level(),
        }
    }

    /// Acts on the cell at `(x, y)` with the action of the tile found there; a
    /// code that the tile table lacks does nothing.
    pub fn interact_at(&mut self, x: i32, y: i32)
        ensures
            match old(self).tile_index_at(x as int, y as int) {
                Some(i) => action_done(*old(self), *final(self), old(self).tile_index@[i].ri_action, x as int, y as int),
                None => *final(self) == *old(self),
            },
    {
        let id = self.get_map_tile_id(x, y);
        if 0 <= id && (id as usize) < self.tile_index.len() {
            let action = self.tile_index[id as usize].ri_action;
            self.run_action(action, x, y);
        }
    }

    /// The player tries to step onto `(x, y)`. On a cell of the screen whose
    /// tile can be walked on, the player moves there; on one that blocks, the
    /// tile's action runs instead. Anything else leaves the game as it was.
    pub fn try_move(&mut self, x: i32, y: i32)
        ensures
            (0 <= x <= SCREEN_W && 0 <= y <= SCREEN_H && old(self).tile_index_at(x as int, y as int) is Some) ==> {
                let t = old(self).tile_index@[old(self).tile_index_at(x as int, y as int)->Some_0];
                if !t.collidable {
                    final(self).x == x && final(self).y == y && final(self).map == old(self).map
                        && final(self).running == old(self).running && final(self).tile_index
                        == old(self).tile_index && final(self).discovered == old(self).discovered
                } else {
                    action_done(*old(self), *final(self), t.ri_action, x as int, y as int)
                }
            },
            !(0 <= x <= SCREEN_W && 0 <= y <= SCREEN_H && old(self).tile_index_at(x as int, y as int) is Some)
                ==> *final(self) == *old(self),
    {
        if x <= SCREEN_W && x >= 0 && y >= 0 && y <= SCREEN_H {
            let id = self.get_map_tile_id(x, y);
            if 0 <= id && (id as usize) < self.tile_index.len() {
                let collidable = self.tile_index[id as usize].collidable;
                let action = self.tile_index[id as usize].ri_action;
                if !collidable {
                    self.x = x;
                    self.y = y;
                } else {
                    self.run_action(action, x, y);
                }
            }
        }
    }
}

} // verus!
