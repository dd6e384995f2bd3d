use vstd::prelude::*;

use crate::geometry::{is_tunnel_path, is_walk, manhattan, step_toward, Rect, Vec2};
use crate::tiles::{is_wall, DOOR_CLOSED, EMPTY, WALL_HORIZONTAL, WALL_VERTICAL};

verus! {

/// A grid of tile codes, row by row; `g[y][x]` is the cell at `(x, y)`.
pub type GridView = Seq<Seq<i32>>;

/// The rows of a nested vector, as sequences.
pub open spec fn grid_of(map: Seq<Vec<i32>>) -> GridView {
    map.map_values(|r: Vec<i32>| r@)
}

/// `(x, y)` names a cell of `g`.
pub open spec fn in_grid(g: GridView, x: int, y: int) -> bool {
    0 <= y < g.len() && 0 <= x < g[y].len()
}

/// The code at `(x, y)`, or `EMPTY` off the grid.
pub open spec fn tile_at(g: GridView, x: int, y: int) -> i32 {
    if in_grid(g, x, y) {
        g[y][x]
    } else {
        EMPTY
    }
}

/// `g` has `h` rows of `w` cells.
pub open spec fn is_rect_grid(g: GridView, w: int, h: int) -> bool {
    g.len() == h && forall|i: int| 0 <= i < h ==> (#[trigger] g[i]).len() == w
}

/// `a` and `b` have the same rows with the same lengths.
pub open spec fn same_shape(a: GridView, b: GridView) -> bool {
    a.len() == b.len() && forall|i: int| 0 <= i < a.len() ==> (#[trigger] a[i]).len() == b[i].len()
}

/// `g` with the cell at `(x, y)` set to `v`; unchanged if that cell is off the grid.
pub open spec fn set_tile(g: GridView, x: int, y: int, v: i32) -> GridView {
    if in_grid(g, x, y) {
        g.update(y, g[y].update(x, v))
    } else {
        g
    }
}

/// `g` with every cell of the footprint of `r` set to `t`.
pub open spec fn carved(g: GridView, t: i32, r: Rect) -> GridView {
    Seq::new(
        g.len(),
        |i: int| Seq::new(g[i].len(), |j: int| if r.contains(j, i) { t } else { g[i][j] }),
    )
}

/// The wall code for the border cell `(x, y)` of `r`: its top and bottom rows
/// are horizontal walls, the rest vertical.
pub open spec fn wall_code(r: Rect, y: int) -> i32 {
    if y == r.y - 1 || y == r.y + r.h {
        WALL_HORIZONTAL
    } else {
        WALL_VERTICAL
    }
}

/// `g` with the empty cells of the border of `r` turned into walls.
pub open spec fn walled(g: GridView, r: Rect) -> GridView {
    Seq::new(
        g.len(),
        |i: int|
            Seq::new(
                g[i].len(),
                |j: int|
                    if r.on_border(j, i) && g[i][j] == EMPTY {
                        wall_code(r, i)
                    } else {
                        g[i][j]
                    },
            ),
    )
}

/// What a tunnel leaves in a cell that held `c`: a wall becomes a closed door;
/// otherwise `t` is written where allowed (anywhere, or only on empty cells),
/// and a wall code written that way becomes a closed door too.
pub open spec fn tunnel_mark(c: i32, t: i32, empty_only: bool) -> i32 {
    if is_wall(c) {
        DOOR_CLOSED
    } else if !empty_only || c == EMPTY {
        if is_wall(t) {
            DOOR_CLOSED
        } else {
            t
        }
    } else {
        c
    }
}

/// `g` after a tunnel passed over the cell at `(x, y)`.
pub open spec fn mark_at(g: GridView, x: int, y: int, t: i32, empty_only: bool) -> GridView {
    set_tile(g, x, y, tunnel_mark(tile_at(g, x, y), t, empty_only))
}

} // verus!

verus! {

/// A tunnel from `start` to `end` may be dug in `g`: both ends and the cell to
/// the right of `start` lie on it.
pub open spec fn tunnel_on_map(g: GridView, start: Vec2, end: Vec2) -> bool {
    &&& start.x < i32::MAX
    &&& in_grid(g, start.x as int, start.y as int)
    &&& in_grid(g, start.x + 1, start.y as int)
    &&& in_grid(g, end.x as int, end.y as int)
}

/// `g` after a tunnel passed over the cells of `path`, in order.
pub open spec fn marked_along(g: GridView, path: Seq<Vec2>, t: i32, empty_only: bool) -> GridView
    decreases path.len(),
{
    if path.len() == 0 {
        g
    } else {
        let p = path.last();
        mark_at(marked_along(g, path.drop_last(), t, empty_only), p.x as int, p.y as int, t, empty_only)
    }
}

} // verus!

verus! {

/// Setting a cell keeps the grid's shape.
pub proof fn lemma_set_tile_shape(g: GridView, x: int, y: int, v: i32)
    ensures
        same_shape(set_tile(g, x, y, v), g),
{
}

/// A tunnel keeps the grid's shape.
pub proof fn lemma_marked_along_shape(g: GridView, path: Seq<Vec2>, t: i32, empty_only: bool)
    ensures
        same_shape(marked_along(g, path, t, empty_only), g),
    decreases path.len(),
{
    if path.len() > 0 {
        let p = path.last();
        let g1 = marked_along(g, path.drop_last(), t, empty_only);
        lemma_marked_along_shape(g, path.drop_last(), t, empty_only);
        lemma_set_tile_shape(g1, p.x as int, p.y as int, tunnel_mark(tile_at(g1, p.x as int, p.y as int), t, empty_only));
    }
}

} // verus!

verus! {

/// Carving the same room twice leaves what carving it once leaves.
pub proof fn lemma_carve_idempotent(g: GridView, t: i32, r: Rect)
    ensures
        carved(carved(g, t, r), t, r) == carved(g, t, r),
{
    assert(carved(carved(g, t, r), t, r) =~~= carved(g, t, r));
}

/// Walls go only where nothing was: every cell that held a code other than
/// `EMPTY` holds it still after the walls of any room are carved.
pub proof fn lemma_walls_keep_filled(g: GridView, r: Rect)
    ensures
        same_shape(walled(g, r), g),
        forall|x: int, y: int|
            in_grid(g, x, y) && g[y][x] != EMPTY ==> #[trigger] walled(g, r)[y][x] == g[y][x],
{
}

/// Each cell of a walk lies one step closer to `end` than the one before.
proof fn lemma_walk_distance(path: Seq<Vec2>, start: Vec2, end: Vec2, k: int)
    requires
        is_walk(path, start, end),
        0 <= k < path.len(),
    ensures
        manhattan(path[k], end) == manhattan(path[0], end) - k,
    decreases k,
{
    if k > 0 {
        lemma_walk_distance(path, start, end, k - 1);
        let j = k - 1;
        assert(step_toward(path[j], path[j + 1], end));
    }
}

/// A walk never comes back to a cell it has left.
proof fn lemma_walk_distinct(path: Seq<Vec2>, start: Vec2, end: Vec2)
    requires
        is_walk(path, start, end),
    ensures
        forall|i: int, j: int| 0 <= i < j < path.len() ==> path[i] != path[j],
{
    assert forall|i: int, j: int| 0 <= i < j < path.len() implies path[i] != path[j] by {
        lemma_walk_distance(path, start, end, i);
        lemma_walk_distance(path, start, end, j);
    }
}

/// A tunnel leaves every cell off its path as it was.
proof fn lemma_marked_off_path(g: GridView, path: Seq<Vec2>, t: i32, empty_only: bool, x: int, y: int)
    requires
        forall|k: int| 0 <= k < path.len() ==> !((#[trigger] path[k]).x == x && path[k].y == y),
    ensures
        tile_at(marked_along(g, path, t, empty_only), x, y) == tile_at(g, x, y),
    decreases path.len(),
{
    if path.len() > 0 {
        let front = path.drop_last();
        assert forall|k: int| 0 <= k < front.len() implies !((#[trigger] front[k]).x == x && front[k].y == y) by {
            assert(front[k] == path[k]);
        }
        lemma_marked_off_path(g, front, t, empty_only, x, y);
        let g1 = marked_along(g, front, t, empty_only);
        let p = path.last();
        assert(!(p.x == x && p.y == y));
        lemma_marked_along_shape(g, front, t, empty_only);
    }
}

/// Along a path that visits no cell twice, every wall on the grid ends as a
/// closed door.
proof fn lemma_marked_walls(g: GridView, path: Seq<Vec2>, t: i32, empty_only: bool, k: int)
    requires
        forall|i: int, j: int| 0 <= i < j < path.len() ==> path[i] != path[j],
        0 <= k < path.len(),
        in_grid(g, path[k].x as int, path[k].y as int),
        is_wall(g[path[k].y as int][path[k].x as int]),
    ensures
        tile_at(marked_along(g, path, t, empty_only), path[k].x as int, path[k].y as int) == DOOR_CLOSED,
    decreases path.len(),
{
    let front = path.drop_last();
    let g1 = marked_along(g, front, t, empty_only);
    let p = path.last();
    let x = path[k].x as int;
    let y = path[k].y as int;
    lemma_marked_along_shape(g, front, t, empty_only);
    if k == path.len() - 1 {
        assert forall|i: int| 0 <= i < front.len() implies !((#[trigger] front[i]).x == x && front[i].y == y) by {
            assert(front[i] == path[i]);
            assert(path[i] != path[k]);
        }
        lemma_marked_off_path(g, front, t, empty_only, x, y);
    } else {
        assert forall|i: int, j: int| 0 <= i < j < front.len() implies front[i] != front[j] by {
            assert(front[i] == path[i] && front[j] == path[j]);
        }
        assert(front[k] == path[k]);
        lemma_marked_walls(g, front, t, empty_only, k);
        assert(path[k] != p);
    }
}

/// A tunnel turns every wall on its path, of either orientation, into a closed
/// door, whatever code it writes and whether it writes only on empty cells.
pub proof fn lemma_tunnel_wall_to_door(
    g: GridView,
    path: Seq<Vec2>,
    start: Vec2,
    end: Vec2,
    t: i32,
    empty_only: bool,
    k: int,
)
    requires
        is_tunnel_path(path, start, end),
        0 <= k < path.len(),
        in_grid(g, path[k].x as int, path[k].y as int),
        is_wall(g[path[k].y as int][path[k].x as int]),
    ensures
        tile_at(marked_along(g, path, t, empty_only), path[k].x as int, path[k].y as int) == DOOR_CLOSED,
{
    lemma_walk_distinct(path, start, end);
    lemma_marked_walls(g, path, t, empty_only, k);
}

} // verus!
