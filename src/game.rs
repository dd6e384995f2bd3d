use vstd::prelude::*;

use crate::discovered::DiscoveredMap;
use crate::geometry::{in_walk_box, is_tunnel_path, is_walk, manhattan, step_toward, Rect, Vec2};
use crate::grid::{
    carved, grid_of, in_grid, mark_at, marked_along, tunnel_on_map, same_shape, set_tile, tile_at, walled, wall_code, GridView,
};
use crate::rng::random_range;
use crate::tiles::{is_wall, Tile, DOOR_CLOSED, EMPTY, WALL_HORIZONTAL, WALL_VERTICAL};

verus! {

/// The whole game state: the player's position, the map of tile codes, what
/// each code means, and what the player has seen.
#[derive(Clone, Debug)]
pub struct Game {
    pub x: i32,
    pub y: i32,
    pub running: bool,
    pub map: Vec<Vec<i32>>,
    pub tile_index: Vec<Tile>,
    pub discovered: DiscoveredMap,
}

/// The border of `r` lies on rows and columns that `g` has.
pub open spec fn border_in_grid(g: GridView, r: Rect) -> bool {
    &&& r.w >= 0 && r.h >= 0
    &&& 1 <= r.x && 1 <= r.y
    &&& r.y + r.h < g.len()
    &&& forall|i: int| r.y - 1 <= i <= r.y + r.h ==> r.x + r.w < (#[trigger] g[i]).len()
}

impl Game {
    /// The map as a grid of codes.
    pub open spec fn grid(&self) -> GridView {
        grid_of(self.map@)
    }

    /// `self` and `o` agree on everything but the map.
    pub open spec fn same_but_map(&self, o: &Game) -> bool {
        &&& self.x == o.x
        &&& self.y == o.y
        &&& self.running == o.running
        &&& self.tile_index@ == o.tile_index@
        &&& self.discovered == o.discovered
    }

    /// The code at `(x, y)`, or `EMPTY` where that lies off the map.
    pub fn get_map_tile_id(&self, x: i32, y: i32) -> (r: i32)
        ensures
            r == tile_at(self.grid(), x as int, y as int),
    {
        self.cell(x as i64, y as i64)
    }

    /// The code at `(x, y)`, or `EMPTY` where that lies off the map.
    fn cell(&self, x: i64, y: i64) -> (r: i32)
        ensures
            r == tile_at(self.grid(), x as int, y as int),
    {
        if 0 <= y && (y as i128) < (self.map.len() as i128) {
            let row = &self.map[y as usize];
            if 0 <= x && (x as i128) < (row.len() as i128) {
                return row[x as usize];
            }
        }
        EMPTY
    }

    /// Sets the cell at `(x, y)` to `v`; a cell off the map is left alone.
    pub(crate) fn set_cell(&mut self, x: i64, y: i64, v: i32)
        ensures
            final(self).grid() == set_tile(old(self).grid(), x as int, y as int, v),
            final(self).same_but_map(old(self)),
    {
        if 0 <= y && (y as i128) < (self.map.len() as i128) {
            let yi = y as usize;
            if 0 <= x && (x as i128) < (self.map[yi].len() as i128) {
                let xi = x as usize;
                self.map[yi][xi] = v;
                assert(self.grid() =~~= set_tile(old(self).grid(), x as int, y as int, v));
                return;
            }
        }
        assert(self.grid() =~~= old(self).grid());
    }

    /// Sets every cell of the footprint of `rect` to `tile_id`; the part that
    /// lies off the map is skipped.
    pub fn carve(&mut self, tile_id: i32, rect: &Rect)
        ensures
            final(self).grid() == carved(old(self).grid(), tile_id, *rect),
            final(self).same_but_map(old(self)),
    {
        let ghost g0 = self.grid();
        let y1: i64 = rect.y as i64 + rect.h as i64;
        let x1: i64 = rect.x as i64 + rect.w as i64;
        let mut yy: i64 = rect.y as i64;
        while yy < y1
            invariant
                y1 == rect.y + rect.h,
                x1 == rect.x + rect.w,
                rect.y <= yy,
                rect.h >= 0 ==> yy <= y1,
                rect.h < 0 ==> yy == rect.y,
                self.same_but_map(old(self)),
                same_shape(self.grid(), g0),
                forall|i: int, j: int|
                    #![trigger self.grid()[i][j]]
                    0 <= i < g0.len() && 0 <= j < g0[i].len() ==> self.grid()[i][j] == if rect.contains(j, i) && i < yy {
                        tile_id
                    } else {
                        g0[i][j]
                    },
            decreases y1 - yy,
        {
            let mut xx: i64 = rect.x as i64;
            while xx < x1
                invariant
                    y1 == rect.y + rect.h,
                    x1 == rect.x + rect.w,
                    rect.y <= yy < y1,
                    rect.x <= xx,
                    rect.w >= 0 ==> xx <= x1,
                    rect.w < 0 ==> xx == rect.x,
                    self.same_but_map(old(self)),
                    same_shape(self.grid(), g0),
                    forall|i: int, j: int|
                        #![trigger self.grid()[i][j]]
                        0 <= i < g0.len() && 0 <= j < g0[i].len() ==> self.grid()[i][j] == if rect.contains(j, i) && (i < yy || (i == yy && j < xx)) {
                            tile_id
                        } else {
                            g0[i][j]
                        },
                decreases x1 - xx,
            {
                self.set_cell(xx, yy, tile_id);
                xx = xx + 1;
            }
            yy = yy + 1;
        }
        assert(self.grid() =~~= carved(g0, tile_id, *rect));
    }

    /// Turns the empty cells of the one-cell border around `rect` into walls:
    /// horizontal on its top and bottom rows, vertical on its sides. A cell
    /// that holds anything else is left as it is.
    pub fn carve_walls(&mut self, rect: &Rect)
        requires
            border_in_grid(old(self).grid(), *rect),
        ensures
            final(self).grid() == walled(old(self).grid(), *rect),
            final(self).same_but_map(old(self)),
    {
        let ghost g0 = self.grid();
        let y0: i64 = rect.y as i64 - 1;
        let y1: i64 = rect.y as i64 + rect.h as i64;
        let x0: i64 = rect.x as i64 - 1;
        let x1: i64 = rect.x as i64 + rect.w as i64;
        let mut yy: i64 = y0;
        while yy <= y1
            invariant
                border_in_grid(g0, *rect),
                y0 == rect.y - 1,
                y1 == rect.y + rect.h,
                x0 == rect.x - 1,
                x1 == rect.x + rect.w,
                y0 <= yy <= y1 + 1,
                self.same_but_map(old(self)),
                same_shape(self.grid(), g0),
                forall|i: int, j: int|
                    #![trigger self.grid()[i][j]]
                    0 <= i < g0.len() && 0 <= j < g0[i].len() ==> self.grid()[i][j] == if rect.on_border(j, i) && g0[i][j] == EMPTY && i < yy {
                        wall_code(*rect, i)
                    } else {
                        g0[i][j]
                    },
            decreases y1 + 1 - yy,
        {
            let mut xx: i64 = x0;
            while xx <= x1
                invariant
                    border_in_grid(g0, *rect),
                    y0 == rect.y - 1,
                    y1 == rect.y + rect.h,
                    x0 == rect.x - 1,
                    x1 == rect.x + rect.w,
                    y0 <= yy <= y1,
                    x0 <= xx <= x1 + 1,
                    self.same_but_map(old(self)),
                    same_shape(self.grid(), g0),
                    forall|i: int, j: int|
                        #![trigger self.grid()[i][j]]
                        0 <= i < g0.len() && 0 <= j < g0[i].len() ==> self.grid()[i][j] == if rect.on_border(j, i) && g0[i][j] == EMPTY && (i < yy || (i == yy && j < xx)) {
                            wall_code(*rect, i)
                        } else {
                            g0[i][j]
                        },
                decreases x1 + 1 - xx,
            {
                let on_border = yy == y0 || yy == y1 || xx == x0 || xx == x1;
                if on_border && self.cell(xx, yy) == EMPTY {
                    let code = if yy == y0 || yy == y1 {
                        WALL_HORIZONTAL
                    } else {
                        WALL_VERTICAL
                    };
                    self.set_cell(xx, yy, code);
                }
                xx = xx + 1;
            }
            yy = yy + 1;
        }
        assert(self.grid() =~~= walled(g0, *rect));
    }

    /// Lets a tunnel pass over the cell at `(x, y)`.
    fn mark_cell(&mut self, x: i32, y: i32, tile_id: i32, replace_empty_only: bool)
        ensures
            final(self).grid() == mark_at(
                old(self).grid(),
                x as int,
                y as int,
                tile_id,
                replace_empty_only,
            ),
            final(self).same_but_map(old(self)),
    {
        let c = self.cell(x as i64, y as i64);
        let mut v = if c == WALL_VERTICAL || c == WALL_HORIZONTAL {
            DOOR_CLOSED
        } else if !replace_empty_only || c == EMPTY {
            tile_id
        } else {
            c
        };
        if v == WALL_VERTICAL || v == WALL_HORIZONTAL {
            v = DOOR_CLOSED;
        }
        self.set_cell(x as i64, y as i64, v);
    }

    /// Whether `(x, y)` names a cell of the map.
    fn on_map(&self, x: i64, y: i64) -> (r: bool)
        ensures
            r == in_grid(self.grid(), x as int, y as int),
    {
        0 <= y && (y as i128) < (self.map.len() as i128) && 0 <= x && (x as i128) < (
        self.map[y as usize].len() as i128)
    }

    /// Digs a tunnel from `start` to `end`. It steps once to the right of
    /// `start`, then walks toward `end` one axial step at a time, along one axis
    /// until a random draw turns it or that axis is done; it begins horizontally.
    /// Each cell it steps onto is marked, `end` included; `start` is not.
    ///
    /// A wall it passes becomes a closed door. Elsewhere it writes `tile_id`,
    /// only on empty cells when `replace_empty_only` holds. Where `start`, the
    /// cell to its right, or `end` lies off the map, nothing is dug.
    pub fn carve_tunnels(&mut self, start: Vec2, end: Vec2, tile_id: i32, replace_empty_only: bool)
        ensures
            final(self).same_but_map(old(self)),
            !tunnel_on_map(old(self).grid(), start, end) ==> final(self).grid() == old(self).grid(),
            tunnel_on_map(old(self).grid(), start, end) ==> exists|path: Seq<Vec2>|
                is_tunnel_path(path, start, end) && final(self).grid() == marked_along(
                    old(self).grid(),
                    path,
                    tile_id,
                    replace_empty_only,
                ),
    {
        if start.x == i32::MAX || !self.on_map(start.x as i64, start.y as i64) || !self.on_map(
            start.x as i64 + 1,
            start.y as i64,
        ) || !self.on_map(end.x as i64, end.y as i64) {
            return;
        }
        let ghost g0 = self.grid();
        let mut current = Vec2 { x: start.x + 1, y: start.y };
        let mut vertical = false;
        self.mark_cell(current.x, current.y, tile_id, replace_empty_only);
        let ghost mut path: Seq<Vec2> = seq![current];
        assert(path.drop_last() =~= Seq::<Vec2>::empty());
        assert(marked_along(g0, Seq::<Vec2>::empty(), tile_id, replace_empty_only) == g0);
        assert(marked_along(g0, path, tile_id, replace_empty_only) == mark_at(
            g0,
            current.x as int,
            current.y as int,
            tile_id,
            replace_empty_only,
        ));
        while current != end
            invariant
                is_walk(path, start, end),
                path.last() == current,
                path.len() == 1 && vertical ==> current.x == end.x,
                path.len() + manhattan(current, end) <= manhattan(start, end) + 2,
                forall|k: int| 0 <= k < path.len() ==> in_walk_box(#[trigger] path[k], start, end),
                self.grid() == marked_along(g0, path, tile_id, replace_empty_only),
                self.same_but_map(old(self)),
            decreases 2 * manhattan(current, end) + if (vertical && current.y == end.y) || (!vertical
                && current.x == end.x) {
                1int
            } else {
                0int
            },
        {
            let ghost old_path = path;
            let moves = if vertical {
                current.y != end.y
            } else {
                current.x != end.x
            };
            if moves {
                if vertical {
                    if current.y < end.y {
                        current.y = current.y + 1;
                    } else {
                        current.y = current.y - 1;
                    }
                } else {
                    if current.x < end.x {
                        current.x = current.x + 1;
                    } else {
                        current.x = current.x - 1;
                    }
                }
                self.mark_cell(current.x, current.y, tile_id, replace_empty_only);
                proof {
                    let p2 = path.push(current);
                    assert(p2.drop_last() =~= path);
                    assert(p2.last() == current);
                    path = p2;
                    assert forall|k: int| 0 <= k < path.len() - 1 implies #[trigger] step_toward(
                        path[k],
                        path[k + 1],
                        end,
                    ) by {
                        if k < path.len() - 2 {
                            assert(path[k] == old_path[k] && path[k + 1] == old_path[k + 1]);
                            assert(step_toward(old_path[k], old_path[k + 1], end));
                        }
                    }
                    assert(path[0] == old_path[0]);
                }
            }
            if current != end {
                if current.y == end.y {
                    vertical = false;
                } else if current.x == end.x {
                    vertical = true;
                } else {
                    vertical = next_axis(vertical, random_range(0, 6));
                }
            }
        }
        assert(is_tunnel_path(path, start, end));
    }
}

/// The axis a tunnel follows after a draw from `[0, 6)`, while neither axis is
/// done: 0 turns it horizontal, 1 vertical, anything else keeps the axis it had.
pub fn next_axis(vertical: bool, draw: i32) -> (r: bool)
    ensures
        r == if draw == 0 {
            false
        } else if draw == 1 {
            true
        } else {
            vertical
        },
{
    if draw == 0 {
        false
    } else if draw == 1 {
        true
    } else {
        vertical
    }
}

} // verus!
