use vstd::prelude::*;

use crate::geometry::Vec2;

verus! {

/// How far around a position `discover_around` reveals, in each direction.
pub const DISCOVER_RADIUS: i32 = 2;

/// Which cells of the map the player has seen, row by row.
#[derive(Clone, Debug)]
pub struct DiscoveredMap {
    pub content: Vec<Vec<bool>>,
}

/// `(x, y)` lies within `DISCOVER_RADIUS` of `pos` on both axes.
pub open spec fn near(pos: Vec2, x: int, y: int) -> bool {
    pos.x - DISCOVER_RADIUS <= x <= pos.x + DISCOVER_RADIUS
        && pos.y - DISCOVER_RADIUS <= y <= pos.y + DISCOVER_RADIUS
}

impl DiscoveredMap {
    /// Every row holds `w` cells and there are `h` rows.
    pub open spec fn has_shape(&self, w: int, h: int) -> bool {
        &&& self.content@.len() == h
        &&& forall|i: int| 0 <= i < h ==> (#[trigger] self.content@[i])@.len() == w
    }

    /// `h` rows of `w` cells, none of them seen.
    pub open spec fn is_blank(&self, w: int, h: int) -> bool {
        &&& self.has_shape(w, h)
        &&& forall|i: int, j: int|
            0 <= i < h && 0 <= j < w ==> !(#[trigger] self.content@[i]@[j])
    }

    /// Reveals every cell within `DISCOVER_RADIUS` of `pos` that lies on the map;
    /// the rest stays as it was.
    pub fn discover_around(&mut self, pos: Vec2)
        ensures
            final(self).content@.len() == old(self).content@.len(),
            forall|i: int|
                0 <= i < old(self).content@.len() ==> (#[trigger] final(self).content@[i])@.len()
                    == old(self).content@[i]@.len(),
            forall|i: int, j: int|
                0 <= i < old(self).content@.len() && 0 <= j < old(self).content@[i]@.len()
                    ==> (#[trigger] final(self).content@[i]@[j]) == (old(self).content@[i]@[j]
                    || near(pos, j, i)),
    {
        let ghost start = self.content@;
        let y0: i64 = pos.y as i64 - DISCOVER_RADIUS as i64;
        let y1: i64 = pos.y as i64 + DISCOVER_RADIUS as i64;
        let x0: i64 = pos.x as i64 - DISCOVER_RADIUS as i64;
        let x1: i64 = pos.x as i64 + DISCOVER_RADIUS as i64;
        let mut y: i64 = y0;
        while y <= y1
            invariant
                y0 <= y <= y1 + 1,
                y0 == pos.y - DISCOVER_RADIUS,
                y1 == pos.y + DISCOVER_RADIUS,
                x0 == pos.x - DISCOVER_RADIUS,
                x1 == pos.x + DISCOVER_RADIUS,
                self.content@.len() == start.len(),
                forall|i: int| 0 <= i < start.len() ==> (#[trigger] self.content@[i])@.len()
                    == start[i]@.len(),
                forall|i: int, j: int|
                    0 <= i < start.len() && 0 <= j < start[i]@.len()
                        ==> (#[trigger] self.content@[i]@[j]) == (start[i]@[j] || (near(
                        pos,
                        j,
                        i,
                    ) && i < y)),
            decreases y1 + 1 - y,
        {
            if 0 <= y && (y as usize) < self.content.len() {
                let yi = y as usize;
                let mut x: i64 = x0;
                while x <= x1
                    invariant
                        x0 <= x <= x1 + 1,
                        x0 == pos.x - DISCOVER_RADIUS,
                        x1 == pos.x + DISCOVER_RADIUS,
                        y0 <= y <= y1,
                        y0 == pos.y - DISCOVER_RADIUS,
                        y1 == pos.y + DISCOVER_RADIUS,
                        0 <= y < start.len(),
                        yi == y,
                        self.content@.len() == start.len(),
                        forall|i: int| 0 <= i < start.len() ==> (#[trigger] self.content@[i])@.len()
                            == start[i]@.len(),
                        forall|i: int, j: int|
                            0 <= i < start.len() && 0 <= j < start[i]@.len()
                                ==> (#[trigger] self.content@[i]@[j]) == (start[i]@[j] || (near(
                                pos,
                                j,
                                i,
                            ) && (i < y || (i == y && j < x)))),
                    decreases x1 + 1 - x,
                {
                    if 0 <= x && (x as usize) < self.content[yi].len() {
                        self.content[yi][x as usize] = true;
                    }
                    x = x + 1;
                }
            }
            y = y + 1;
        }
    }

    /// A map of `h` rows of `w` cells, none of them seen yet. A negative size
    /// counts as zero.
    pub fn new(w: i32, h: i32) -> (r: Self)
        ensures
            r.is_blank(if w < 0 { 0 } else { w as int }, if h < 0 { 0 } else { h as int }),
    {
        let mut content: Vec<Vec<bool>> = Vec::new();
        let mut y: i32 = 0;
        while y < h
            invariant
                0 <= y,
                h >= 0 ==> y <= h,
                h < 0 ==> y == 0,
                content@.len() == y,
                forall|i: int| 0 <= i < y ==> (#[trigger] content@[i])@.len() == if w < 0 {
                    0
                } else {
                    w as int
                },
                forall|i: int, j: int|
                    0 <= i < content@.len() && 0 <= j < content@[i]@.len()
                        ==> !(#[trigger] content@[i]@[j]),
            decreases h - y,
        {
            let mut row: Vec<bool> = Vec::new();
            let mut x: i32 = 0;
            while x < w
                invariant
                    0 <= x,
                    w >= 0 ==> x <= w,
                    w < 0 ==> x == 0,
                    row@.len() == x,
                    forall|j: int| 0 <= j < row@.len() ==> !(#[trigger] row@[j]),
                decreases w - x,
            {
                row.push(false);
                x = x + 1;
            }
            content.push(row);
            y = y + 1;
        }
        DiscoveredMap { content }
    }
}

} // verus!
