use vstd::prelude::*;

use crate::geometry::{
    in_walk_box, is_tunnel_path, manhattan, step_toward, Rect, Vec2, SCREEN_H, SCREEN_W,
};
use crate::grid::{
    carved, in_grid, is_rect_grid, lemma_marked_along_shape, mark_at, marked_along, same_shape,
    set_tile, tile_at, tunnel_mark, walled, GridView,
};
use crate::level::{ROOM_MIN_H, ROOM_MIN_W, level_grid, level_paths, room_sizes, rooms_done, rooms_fit};
use crate::tiles::{is_passable, CORRIDOR, FLOOR, STAIRS_DOWN};

verus! {

/// `p` leads from `a` to `b` one axial step at a time over passable cells of `g`.
pub open spec fn is_passable_path(g: GridView, p: Seq<Vec2>, a: Vec2, b: Vec2) -> bool {
    &&& p.len() >= 1
    &&& p[0] == a
    &&& p.last() == b
    &&& forall|k: int| 0 <= k < p.len() ==> is_passable(tile_at(g, (#[trigger] p[k]).x as int, p[k].y as int))
    &&& forall|k: int| 0 <= k < p.len() - 1 ==> #[trigger] manhattan(p[k], p[k + 1]) == 1
}

/// One can walk from `a` to `b` in `g`.
pub open spec fn connected(g: GridView, a: Vec2, b: Vec2) -> bool {
    exists|p: Seq<Vec2>| is_passable_path(g, p, a, b)
}

/// Every cell that is passable in `a` is passable in `b`.
pub open spec fn keeps_passable(a: GridView, b: GridView) -> bool {
    forall|x: int, y: int| is_passable(#[trigger] tile_at(a, x, y)) ==> is_passable(tile_at(b, x, y))
}

/// Every cell of the footprint of `r` is passable in `g`.
pub open spec fn room_passable(g: GridView, r: Rect) -> bool {
    forall|x: int, y: int| r.contains(x, y) ==> is_passable(#[trigger] tile_at(g, x, y))
}

proof fn lemma_keeps_trans(a: GridView, b: GridView, c: GridView)
    requires
        keeps_passable(a, b),
        keeps_passable(b, c),
    ensures
        keeps_passable(a, c),
{
    assert forall|x: int, y: int| is_passable(#[trigger] tile_at(a, x, y)) implies is_passable(tile_at(c, x, y)) by {
        assert(is_passable(tile_at(b, x, y)));
    }
}

proof fn lemma_room_kept(a: GridView, b: GridView, r: Rect)
    requires
        keeps_passable(a, b),
        room_passable(a, r),
    ensures
        room_passable(b, r),
{
    assert forall|x: int, y: int| r.contains(x, y) implies is_passable(#[trigger] tile_at(b, x, y)) by {
        assert(is_passable(tile_at(a, x, y)));
    }
}

/// A corridor mark keeps what was passable, and leaves the marked cell passable.
proof fn lemma_mark_keeps(g: GridView, x: int, y: int)
    ensures
        keeps_passable(g, mark_at(g, x, y, CORRIDOR, true)),
        in_grid(g, x, y) ==> is_passable(tile_at(mark_at(g, x, y, CORRIDOR, true), x, y)),
        same_shape(mark_at(g, x, y, CORRIDOR, true), g),
{
    let g2 = mark_at(g, x, y, CORRIDOR, true);
    assert forall|a: int, b: int| is_passable(#[trigger] tile_at(g, a, b)) implies is_passable(tile_at(g2, a, b)) by {
        if a == x && b == y {
            assert(tunnel_mark(tile_at(g, x, y), CORRIDOR, true) == tile_at(g, x, y));
        }
    }
}

/// A corridor keeps what was passable, and leaves each of its cells on the
/// grid passable.
proof fn lemma_marked_along_keeps(g: GridView, path: Seq<Vec2>)
    ensures
        keeps_passable(g, marked_along(g, path, CORRIDOR, true)),
        forall|k: int|
            0 <= k < path.len() && in_grid(g, (#[trigger] path[k]).x as int, path[k].y as int)
                ==> is_passable(tile_at(marked_along(g, path, CORRIDOR, true), path[k].x as int, path[k].y as int)),
    decreases path.len(),
{
    if path.len() > 0 {
        let front = path.drop_last();
        let p = path.last();
        let g1 = marked_along(g, front, CORRIDOR, true);
        let g2 = marked_along(g, path, CORRIDOR, true);
        lemma_marked_along_keeps(g, front);
        lemma_marked_along_shape(g, front, CORRIDOR, true);
        lemma_mark_keeps(g1, p.x as int, p.y as int);
        lemma_keeps_trans(g, g1, g2);
        assert forall|k: int|
            0 <= k < path.len() && in_grid(g, (#[trigger] path[k]).x as int, path[k].y as int)
                implies is_passable(tile_at(g2, path[k].x as int, path[k].y as int)) by {
            if k < path.len() - 1 {
                assert(front[k] == path[k]);
                assert(is_passable(tile_at(g1, path[k].x as int, path[k].y as int)));
            }
        }
    }
}

/// The map keeps its size while rooms are placed.
proof fn lemma_rooms_done_shape(rects: Seq<Rect>, paths: Seq<Seq<Vec2>>, k: nat)
    requires
        k <= rects.len(),
        k < rects.len() ==> k <= paths.len(),
        k == rects.len() ==> k <= paths.len() + 1,
    ensures
        is_rect_grid(rooms_done(rects, paths, k), SCREEN_W as int, SCREEN_H as int),
    decreases k,
{
    if k > 0 {
        lemma_rooms_done_shape(rects, paths, (k - 1) as nat);
        let r = rects[k - 1];
        let g = carved(walled(rooms_done(rects, paths, (k - 1) as nat), r), FLOOR, r);
        if k < rects.len() {
            lemma_marked_along_shape(g, paths[k - 1], CORRIDOR, true);
        }
    }
}

/// Placing room `k`: what was passable stays so, and the room's own floor is
/// passable.
proof fn lemma_room_step(rects: Seq<Rect>, paths: Seq<Seq<Vec2>>, k: nat)
    requires
        k < rects.len(),
        k < rects.len() - 1 ==> k < paths.len(),
        k == rects.len() - 1 ==> k <= paths.len(),
        rooms_fit(rects),
    ensures
        keeps_passable(rooms_done(rects, paths, k), rooms_done(rects, paths, k + 1)),
        room_passable(rooms_done(rects, paths, k + 1), rects[k as int]),
{
    let r = rects[k as int];
    let g0 = rooms_done(rects, paths, k);
    lemma_rooms_done_shape(rects, paths, k);
    let g1 = walled(g0, r);
    let g2 = carved(g1, FLOOR, r);
    assert(keeps_passable(g0, g1));
    assert(keeps_passable(g1, g2));
    lemma_keeps_trans(g0, g1, g2);
    assert(room_passable(g2, r));
    if k + 1 < rects.len() {
        lemma_marked_along_keeps(g2, paths[k as int]);
        lemma_keeps_trans(g0, g2, rooms_done(rects, paths, k + 1));
        lemma_room_kept(g2, rooms_done(rects, paths, k + 1), r);
    }
}

/// Placing rooms never makes a passable cell impassable.
proof fn lemma_rooms_keep(rects: Seq<Rect>, paths: Seq<Seq<Vec2>>, j: nat, k: nat)
    requires
        j <= k <= rects.len(),
        paths.len() + 1 >= rects.len(),
        rooms_fit(rects),
    ensures
        keeps_passable(rooms_done(rects, paths, j), rooms_done(rects, paths, k)),
    decreases k - j,
{
    if j < k {
        lemma_rooms_keep(rects, paths, j, (k - 1) as nat);
        lemma_room_step(rects, paths, (k - 1) as nat);
        lemma_keeps_trans(
            rooms_done(rects, paths, j),
            rooms_done(rects, paths, (k - 1) as nat),
            rooms_done(rects, paths, k),
        );
    }
}

/// In a finished level, the first and last rooms and every cell of the last
/// tunnel are passable.
proof fn lemma_level_passable(rects: Seq<Rect>, paths: Seq<Seq<Vec2>>)
    requires
        rects.len() >= 1,
        rooms_fit(rects),
        level_paths(rects, paths),
    ensures
        room_passable(level_grid(rects, paths), rects[0]),
        room_passable(level_grid(rects, paths), rects[rects.len() - 1]),
        forall|k: int|
            0 <= k < paths[rects.len() - 1].len() ==> is_passable(
                tile_at(
                    level_grid(rects, paths),
                    (#[trigger] paths[rects.len() - 1][k]).x as int,
                    paths[rects.len() - 1][k].y as int,
                ),
            ),
{
    let n = rects.len();
    let first = rects[0];
    let last = rects[n - 1];
    let tunnel = paths[n - 1];
    let g_rooms = rooms_done(rects, paths, n);
    let g_tun = marked_along(g_rooms, tunnel, CORRIDOR, true);
    let g = level_grid(rects, paths);
    lemma_room_step(rects, paths, 0);
    lemma_rooms_keep(rects, paths, 1, n);
    lemma_room_kept(rooms_done(rects, paths, 1), g_rooms, first);
    lemma_room_step(rects, paths, (n - 1) as nat);
    lemma_rooms_done_shape(rects, paths, n);
    lemma_marked_along_keeps(g_rooms, tunnel);
    lemma_marked_along_shape(g_rooms, tunnel, CORRIDOR, true);
    assert(keeps_passable(g_tun, g)) by {
        assert forall|x: int, y: int| is_passable(#[trigger] tile_at(g_tun, x, y)) implies is_passable(tile_at(g, x, y)) by {}
    }
    lemma_keeps_trans(g_rooms, g_tun, g);
    lemma_room_kept(g_rooms, g, first);
    lemma_room_kept(g_rooms, g, last);
    assert(is_tunnel_path(tunnel, first.origin(), last.origin()));
    assert forall|k: int| 0 <= k < tunnel.len() implies is_passable(tile_at(g, (#[trigger] tunnel[k]).x as int, tunnel[k].y as int)) by {
        assert(in_walk_box(tunnel[k], first.origin(), last.origin()));
        assert(in_grid(g_rooms, tunnel[k].x as int, tunnel[k].y as int));
        assert(is_passable(tile_at(g_tun, tunnel[k].x as int, tunnel[k].y as int)));
    }
}

/// Joins two rooms' inner corners through the tunnel between their corners.
proof fn lemma_rooms_joined(g: GridView, first: Rect, last: Rect, tunnel: Seq<Vec2>)
    requires
        first.w >= 2 && first.h >= 2,
        last.w >= 2 && last.h >= 2,
        first.x + 1 <= i32::MAX && first.y + 1 <= i32::MAX,
        last.x + 1 <= i32::MAX && last.y + 1 <= i32::MAX,
        room_passable(g, first),
        room_passable(g, last),
        is_tunnel_path(tunnel, first.origin(), last.origin()),
        forall|k: int|
            0 <= k < tunnel.len() ==> is_passable(tile_at(g, (#[trigger] tunnel[k]).x as int, tunnel[k].y as int)),
    ensures
        connected(
            g,
            Vec2 { x: (first.x + 1) as i32, y: (first.y + 1) as i32 },
            Vec2 { x: (last.x + 1) as i32, y: (last.y + 1) as i32 },
        ),
{
    let spawn = Vec2 { x: (first.x + 1) as i32, y: (first.y + 1) as i32 };
    let stairs = Vec2 { x: (last.x + 1) as i32, y: (last.y + 1) as i32 };
    let left = Vec2 { x: first.x, y: (first.y + 1) as i32 };
    let beside = Vec2 { x: (last.x + 1) as i32, y: last.y };
    let walk = seq![spawn, left, first.origin()] + tunnel + seq![beside, stairs];
    let m = tunnel.len() as int;
    assert(walk.len() == m + 5);
    assert(walk[0] == spawn && walk[1] == left && walk[2] == first.origin());
    assert(walk[m + 3] == beside && walk[m + 4] == stairs);
    assert(first.contains(spawn.x as int, spawn.y as int) && first.contains(left.x as int, left.y as int));
    assert(first.contains(first.x as int, first.y as int));
    assert(last.contains(beside.x as int, beside.y as int));
    assert(last.contains(stairs.x as int, stairs.y as int));
    assert forall|k: int| 0 <= k < walk.len() implies is_passable(tile_at(g, (#[trigger] walk[k]).x as int, walk[k].y as int)) by {
        if 3 <= k < 3 + m {
            assert(walk[k] == tunnel[k - 3]);
        }
    }
    assert forall|k: int| 0 <= k < walk.len() - 1 implies #[trigger] manhattan(walk[k], walk[k + 1]) == 1 by {
        if k == 2 {
            assert(walk[3] == tunnel[0]);
        } else if 3 <= k < 2 + m {
            assert(walk[k] == tunnel[k - 3]);
            assert(walk[k + 1] == tunnel[k - 2]);
            let j = k - 3;
            assert(crate::geometry::is_walk(tunnel, first.origin(), last.origin()));
            assert(0 <= j < tunnel.len() - 1);
            assert(step_toward(tunnel[j], tunnel[j + 1], last.origin()));
        } else if k == 2 + m {
            assert(walk[k] == tunnel[m - 1]);
        }
    }
    assert(is_passable_path(g, walk, spawn, stairs));
}

/// In every level built from rooms of the drawn sizes, the player's starting
/// cell, one inside the first room's corner, and the staircase, one inside the
/// last room's corner, are joined by a walk over passable cells.
pub proof fn lemma_level_connected(rects: Seq<Rect>, paths: Seq<Seq<Vec2>>)
    requires
        rects.len() >= 1,
        rooms_fit(rects),
        room_sizes(rects),
        level_paths(rects, paths),
    ensures
        connected(
            level_grid(rects, paths),
            Vec2 { x: (rects[0].x + 1) as i32, y: (rects[0].y + 1) as i32 },
            Vec2 { x: (rects[rects.len() - 1].x + 1) as i32, y: (rects[rects.len() - 1].y + 1) as i32 },
        ),
{
    let n = rects.len();
    lemma_level_passable(rects, paths);
    assert(rooms_fit(rects) && room_sizes(rects));
    assert(rects[0].fits_with_margin(SCREEN_W as int, SCREEN_H as int));
    assert(rects[n - 1].fits_with_margin(SCREEN_W as int, SCREEN_H as int));
    assert(ROOM_MIN_W <= rects[0].w && ROOM_MIN_H <= rects[0].h);
    assert(ROOM_MIN_W <= rects[n - 1].w && ROOM_MIN_H <= rects[n - 1].h);
    lemma_rooms_joined(level_grid(rects, paths), rects[0], rects[n - 1], paths[n - 1]);
}

} // verus!
