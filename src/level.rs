use vstd::prelude::*;

use crate::discovered::{near, DiscoveredMap};
use crate::game::Game;
use crate::geometry::{is_tunnel_path, Rect, Vec2, RECS_PER_LEVEL, SCREEN_H, SCREEN_W};
use crate::grid::{
    carved, is_rect_grid, lemma_marked_along_shape, marked_along, set_tile, walled, GridView,
};
use crate::tiles::{CORRIDOR, EMPTY, FLOOR, STAIRS_DOWN};

verus! {

/// Smallest room width.
pub const ROOM_MIN_W: i32 = 4;

/// Smallest room height.
pub const ROOM_MIN_H: i32 = 2;

/// Room widths stay below this.
pub const ROOM_MAX_W: i32 = 10;

/// Room heights stay below this.
pub const ROOM_MAX_H: i32 = 10;

/// A `w` by `h` grid of empty cells.
pub open spec fn empty_grid(w: int, h: int) -> GridView {
    Seq::new(h as nat, |i: int| Seq::new(w as nat, |j: int| EMPTY))
}

/// Every room keeps a one-cell margin inside the map and has at least one cell.
pub open spec fn rooms_fit(rects: Seq<Rect>) -> bool {
    forall|i: int|
        0 <= i < rects.len() ==> (#[trigger] rects[i]).fits_with_margin(SCREEN_W as int, SCREEN_H as int)
            && rects[i].non_degenerate()
}

/// Every room's size lies in the ranges a level draws from.
pub open spec fn room_sizes(rects: Seq<Rect>) -> bool {
    forall|i: int|
        0 <= i < rects.len() ==> ROOM_MIN_W <= (#[trigger] rects[i]).w < ROOM_MAX_W && ROOM_MIN_H
            <= rects[i].h < ROOM_MAX_H
}

/// The map after the first `k` rooms: each room in turn gets its walls, then
/// its floor, then, unless it is the last room, the tunnel `paths[i]` to the
/// next room.
pub open spec fn rooms_done(rects: Seq<Rect>, paths: Seq<Seq<Vec2>>, k: nat) -> GridView
    decreases k,
{
    if k == 0 {
        empty_grid(SCREEN_W as int, SCREEN_H as int)
    } else {
        let r = rects[k - 1];
        let g = carved(walled(rooms_done(rects, paths, (k - 1) as nat), r), FLOOR, r);
        if k < rects.len() {
            marked_along(g, paths[k - 1], CORRIDOR, true)
        } else {
            g
        }
    }
}

/// The finished map: all rooms, then the tunnel `paths[n - 1]` from the first
/// room to the last, then the staircase one cell inside the last room's corner.
pub open spec fn level_grid(rects: Seq<Rect>, paths: Seq<Seq<Vec2>>) -> GridView {
    let n = rects.len();
    let last = rects[n - 1];
    set_tile(
        marked_along(rooms_done(rects, paths, n), paths[n - 1], CORRIDOR, true),
        last.x + 1,
        last.y + 1,
        STAIRS_DOWN,
    )
}

/// `paths[i]` is a tunnel from room `i`'s corner to room `i + 1`'s, and the last
/// one runs from the first room's corner to the last room's.
pub open spec fn level_paths(rects: Seq<Rect>, paths: Seq<Seq<Vec2>>) -> bool {
    let n = rects.len();
    &&& paths.len() == n
    &&& forall|i: int|
        0 <= i < n - 1 ==> is_tunnel_path(#[trigger] paths[i], rects[i].origin(), rects[i + 1].origin())
    &&& is_tunnel_path(paths[n - 1], rects[0].origin(), rects[n - 1].origin())
}

/// `rooms_done` reads only the paths of the rooms it has placed.
proof fn lemma_rooms_done_prefix(rects: Seq<Rect>, paths: Seq<Seq<Vec2>>, more: Seq<Seq<Vec2>>, k: nat)
    requires
        k <= paths.len() || (k == paths.len() + 1 && k >= rects.len()),
        paths.len() <= more.len(),
        forall|i: int| 0 <= i < paths.len() ==> more[i] == paths[i],
    ensures
        rooms_done(rects, paths, k) == rooms_done(rects, more, k),
    decreases k,
{
    if k > 0 {
        lemma_rooms_done_prefix(rects, paths, more, (k - 1) as nat);
    }
}

impl Game {
    /// The map holds a level of `RECS_PER_LEVEL` rooms of the drawn sizes, built
    /// as `build_level` builds it, and the player stands at its start.
    pub open spec fn holds_new_level(&self) -> bool {
        exists|rects: Seq<Rect>, paths: Seq<Seq<Vec2>>|
            {
                &&& rects.len() == RECS_PER_LEVEL
                &&& rooms_fit(rects)
                &&& room_sizes(rects)
                &&& level_paths(rects, paths)
                &&& self.grid() == level_grid(rects, paths)
                &&& self.x == rects[0].x + 1
                &&& self.y == rects[0].y + 1
            }
    }

    /// Clears the map to `SCREEN_H` rows of `SCREEN_W` empty cells.
    fn clear_map(&mut self)
        ensures
            final(self).grid() == empty_grid(SCREEN_W as int, SCREEN_H as int),
            final(self).same_but_map(old(self)),
    {
        let mut map: Vec<Vec<i32>> = Vec::new();
        let mut y: i32 = 0;
        while y < SCREEN_H
            invariant
                0 <= y <= SCREEN_H,
                map@.len() == y,
                forall|i: int| 0 <= i < y ==> (#[trigger] map@[i])@ == Seq::new(SCREEN_W as nat, |j: int| EMPTY),
            decreases SCREEN_H - y,
        {
            let mut row: Vec<i32> = Vec::new();
            let mut x: i32 = 0;
            while x < SCREEN_W
                invariant
                    0 <= x <= SCREEN_W,
                    row@.len() == x,
                    forall|j: int| 0 <= j < x ==> #[trigger] row@[j] == EMPTY,
                decreases SCREEN_W - x,
            {
                row.push(EMPTY);
                x = x + 1;
            }
            assert(row@ =~= Seq::new(SCREEN_W as nat, |j: int| EMPTY));
            map.push(row);
            y = y + 1;
        }
        self.map = map;
        assert(self.grid() =~= empty_grid(SCREEN_W as int, SCREEN_H as int));
    }

    /// Builds a level from the given rooms, in order: the map is cleared and
    /// nothing is discovered; the player stands one cell inside the first room's
    /// corner; each room gets its walls and floor and a tunnel to the next; a
    /// last tunnel joins the first room to the last; the staircase stands one
    /// cell inside the last room's corner.
    pub fn build_level(&mut self, rects: &Vec<Rect>)
        requires
            rects@.len() >= 1,
            rooms_fit(rects@),
        ensures
            final(self).x == rects@[0].x + 1,
            final(self).y == rects@[0].y + 1,
            final(self).running == old(self).running,
            final(self).tile_index@ == old(self).tile_index@,
            final(self).discovered.is_blank(SCREEN_W as int, SCREEN_H as int),
            exists|paths: Seq<Seq<Vec2>>|
                level_paths(rects@, paths) && final(self).grid() == level_grid(rects@, paths),
    {
        self.discovered = DiscoveredMap::new(SCREEN_W, SCREEN_H);
        self.clear_map();
        self.x = rects[0].x + 1;
        self.y = rects[0].y + 1;
        let ghost s = rects@;
        let n = rects.len();
        let ghost mut paths: Seq<Seq<Vec2>> = Seq::empty();
        let mut i: usize = 0;
        while i < n
            invariant
                n == s.len(),
                s == rects@,
                rooms_fit(s),
                n >= 1,
                0 <= i <= n,
                paths.len() == if i < n { i as int } else { n - 1 },
                forall|k: int|
                    0 <= k < paths.len() ==> is_tunnel_path(#[trigger] paths[k], s[k].origin(), s[k + 1].origin()),
                self.grid() == rooms_done(s, paths, i as nat),
                is_rect_grid(self.grid(), SCREEN_W as int, SCREEN_H as int),
                self.x == s[0].x + 1,
                self.y == s[0].y + 1,
                self.running == old(self).running,
                self.tile_index@ == old(self).tile_index@,
                self.discovered.is_blank(SCREEN_W as int, SCREEN_H as int),
            decreases n - i,
        {
            let r = rects[i];
            assert(s[i as int] == r);
            self.carve_walls(&r);
            self.carve(FLOOR, &r);
            let ghost g = self.grid();
            assert(is_rect_grid(g, SCREEN_W as int, SCREEN_H as int));
            if i + 1 < n {
                let next = rects[i + 1];
                let ghost pre = paths;
                self.carve_tunnels(Vec2 { x: r.x, y: r.y }, Vec2 { x: next.x, y: next.y }, CORRIDOR, true);
                proof {
                    let p = choose|p: Seq<Vec2>|
                        is_tunnel_path(p, s[i as int].origin(), s[i + 1].origin()) && self.grid() == marked_along(g, p, CORRIDOR, true);
                    paths = paths.push(p);
                    lemma_rooms_done_prefix(s, pre, paths, i as nat);
                    lemma_marked_along_shape(g, p, CORRIDOR, true);
                }
            }
            i = i + 1;
        }
        let first = rects[0];
        let last = rects[n - 1];
        let ghost g = self.grid();
        self.carve_tunnels(Vec2 { x: first.x, y: first.y }, Vec2 { x: last.x, y: last.y }, CORRIDOR, true);
        proof {
            let p = choose|p: Seq<Vec2>|
                is_tunnel_path(p, s[0].origin(), s[n - 1].origin()) && self.grid() == marked_along(g, p, CORRIDOR, true);
            let pre = paths;
            paths = paths.push(p);
            lemma_rooms_done_prefix(s, pre, paths, n as nat);
            lemma_marked_along_shape(g, p, CORRIDOR, true);
        }
        self.set_cell(last.x as i64 + 1, last.y as i64 + 1, STAIRS_DOWN);
        assert(level_paths(s, paths));
    }

    /// Replaces the level with a new one of `RECS_PER_LEVEL` random rooms,
    /// built as `build_level` builds it.
    pub fn generate_level(&mut self)
        ensures
            final(self).running == old(self).running,
            final(self).tile_index@ == old(self).tile_index@,
            final(self).discovered.is_blank(SCREEN_W as int, SCREEN_H as int),
            final(self).holds_new_level(),
    {
        let mut rects: Vec<Rect> = Vec::new();
        let mut i: i32 = 0;
        while i < RECS_PER_LEVEL
            invariant
                0 <= i <= RECS_PER_LEVEL,
                rects@.len() == i,
                rooms_fit(rects@),
                room_sizes(rects@),
            decreases RECS_PER_LEVEL - i,
        {
            rects.push(Rect::random(ROOM_MIN_W, ROOM_MIN_H, ROOM_MAX_W, ROOM_MAX_H));
            i = i + 1;
        }
        self.build_level(&rects);
    }

    /// Moves to a new level and reveals the cells around the player there.
    pub fn enter_level(&mut self)
        ensures
            final(self).running == old(self).running,
            final(self).tile_index@ == old(self).tile_index@,
            final(self).holds_new_level(),
            final(self).discovered.has_shape(SCREEN_W as int, SCREEN_H as int),
            forall|i: int, j: int|
                0 <= i < SCREEN_H && 0 <= j < SCREEN_W ==> (#[trigger] final(self).discovered.content@[i]@[j])
                    == near(Vec2 { x: final(self).x, y: final(self).y }, j, i),
    {
        self.generate_level();
        let pos = Vec2 { x: self.x, y: self.y };
        self.discovered.discover_around(pos);
    }
}

} // verus!
