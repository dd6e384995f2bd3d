use vstd::prelude::*;

use crate::rng::random_range;

verus! {

/// Width of the map, in cells.
pub const SCREEN_W: i32 = 50;

/// Height of the map, in cells.
pub const SCREEN_H: i32 = 30;

/// Number of rooms placed on each level.
pub const RECS_PER_LEVEL: i32 = 5;

/// A cell position on the map.
#[derive(Clone, Copy, Debug, PartialEq, Eq, Structural)]
pub struct Vec2 {
    pub x: i32,
    pub y: i32,
}

/// The footprint of a room: the cells `[x, x + w) x [y, y + h)`.
#[derive(Clone, Copy, Debug, PartialEq, Eq, Structural)]
pub struct Rect {
    pub x: i32,
    pub y: i32,
    pub w: i32,
    pub h: i32,
}

impl Rect {
    /// The room and its one-cell border lie inside a `gw` by `gh` grid.
    pub open spec fn fits_with_margin(self, gw: int, gh: int) -> bool {
        1 <= self.x && self.x + self.w < gw && 1 <= self.y && self.y + self.h < gh
    }

    /// The room has at least one cell in each direction.
    pub open spec fn non_degenerate(self) -> bool {
        self.w >= 1 && self.h >= 1
    }

    /// The cell `(cx, cy)` lies in the room's footprint.
    pub open spec fn contains(self, cx: int, cy: int) -> bool {
        self.x <= cx < self.x + self.w && self.y <= cy < self.y + self.h
    }

    /// The cell `(cx, cy)` lies on the one-cell border around the footprint.
    pub open spec fn on_border(self, cx: int, cy: int) -> bool {
        &&& self.x - 1 <= cx <= self.x + self.w
        &&& self.y - 1 <= cy <= self.y + self.h
        &&& !self.contains(cx, cy)
    }

    /// The room's top-left cell, where tunnels start and end.
    pub open spec fn origin(self) -> Vec2 {
        Vec2 { x: self.x, y: self.y }
    }

    /// A room of random size and position: its width is drawn from `w_min`
    /// up to but not including `w_max`, its height likewise, each cut to what
    /// still leaves a one-cell margin on the map, and its position so that the
    /// margin holds on every side.
    pub fn random(w_min: i32, h_min: i32, w_max: i32, h_max: i32) -> (r: Self)
        requires
            0 <= w_min < w_max,
            0 <= h_min < h_max,
            w_min < SCREEN_W - 1,
            h_min < SCREEN_H - 1,
        ensures
            w_min <= r.w < w_max,
            h_min <= r.h < h_max,
            r.fits_with_margin(SCREEN_W as int, SCREEN_H as int),
    {
        let w_top = if w_max < SCREEN_W - 1 {
            w_max
        } else {
            SCREEN_W - 1
        };
        let h_top = if h_max < SCREEN_H - 1 {
            h_max
        } else {
            SCREEN_H - 1
        };
        let w = random_range(w_min, w_top);
        let h = random_range(h_min, h_top);
        let x = random_range(1, SCREEN_W - w);
        let y = random_range(1, SCREEN_H - h);
        Rect { x, y, w, h }
    }
}

} // verus!

verus! {

/// The absolute value of `a`.
pub open spec fn abs(a: int) -> int {
    if a < 0 {
        -a
    } else {
        a
    }
}

/// The number of axial steps between `a` and `b`.
pub open spec fn manhattan(a: Vec2, b: Vec2) -> int {
    abs(a.x - b.x) + abs(a.y - b.y)
}

/// `a` to `b` is one axial step, and it brings the walk one step closer to `end`.
pub open spec fn step_toward(a: Vec2, b: Vec2, end: Vec2) -> bool {
    manhattan(a, b) == 1 && manhattan(b, end) == manhattan(a, end) - 1
}

/// `path` lists the cells a tunnel from `start` toward `end` has marked so
/// far, in order: it steps once to the right of `start`, then every step is
/// axial and brings it one closer to `end`. Its first move after the step to
/// the right is horizontal, unless that step already lined it up with `end`.
pub open spec fn is_walk(path: Seq<Vec2>, start: Vec2, end: Vec2) -> bool {
    &&& path.len() >= 1
    &&& path[0].x == start.x + 1
    &&& path[0].y == start.y
    &&& forall|k: int|
        0 <= k < path.len() - 1 ==> #[trigger] step_toward(path[k], path[k + 1], end)
    &&& (path.len() >= 2 && path[0].x != end.x) ==> path[1].y == path[0].y
}

/// `p` lies in the box spanned by `start`, the cell to its right, and `end`.
pub open spec fn in_walk_box(p: Vec2, start: Vec2, end: Vec2) -> bool {
    &&& (if start.x < end.x { start.x } else { end.x }) <= p.x
    &&& p.x <= (if start.x + 1 > end.x { start.x + 1 } else { end.x as int })
    &&& (if start.y < end.y { start.y } else { end.y }) <= p.y
    &&& p.y <= (if start.y > end.y { start.y } else { end.y })
}

/// `path` is the whole list of cells a tunnel from `start` to `end` marks: a
/// walk whose last cell is `end`, at most two cells longer than the distance
/// between them, and inside the box that the two ends span.
pub open spec fn is_tunnel_path(path: Seq<Vec2>, start: Vec2, end: Vec2) -> bool {
    &&& is_walk(path, start, end)
    &&& path.last() == end
    &&& path.len() <= manhattan(start, end) + 2
    &&& forall|k: int| 0 <= k < path.len() ==> in_walk_box(#[trigger] path[k], start, end)
}

} // verus!
