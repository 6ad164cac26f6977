//! Terrain classification derived from the path.
//!
//! Cells covered by a path segment are road; non-road cells within two steps
//! of a road cell (in the diamond neighborhood the road decoration uses) are
//! buildable rock; everything else is plain. A cell is exactly one of the
//! three. Tower placement is validated against the rock cells and the
//! occupied set.

use vstd::prelude::*;

use crate::path::{points_ok, Vec2i};

verus! {

/// Grid columns (the play area is wider than the path ever reaches).
pub const GRID_COLS: usize = 40;

/// Grid rows that terrain occupies.
pub const GRID_ROWS: usize = 24;

/// Rows on which road and rock may stand; rows above are plain.
pub const GRID_PLAY_ROWS: usize = 18;

/// What a terrain cell is: exactly one of road, buildable rock, or plain.
#[derive(Copy, Clone, Eq, PartialEq, Structural, Debug)]
pub enum RoadElement {
    Plain,
    Road,
    Rock,
}

/// The cell column a path coordinate falls in.
pub open spec fn cell_of(c: i64) -> int {
    c / 1_000
}

/// Terrain is built only for paths in the first quadrant.
pub open spec fn points_nonneg(s: Seq<Vec2i>) -> bool {
    forall|i: int| 0 <= i < s.len() ==> (#[trigger] s[i]).x >= 0 && s[i].y >= 0
}

/// The segment from `a` to `b` covers the cell `(x, y)`.
pub open spec fn seg_covers(a: Vec2i, b: Vec2i, x: int, y: int) -> bool {
    if a.x == b.x {
        x == cell_of(a.x) && (cell_of(a.y) <= y <= cell_of(b.y) || cell_of(b.y) <= y <= cell_of(
            a.y,
        ))
    } else {
        y == cell_of(a.y) && (cell_of(a.x) <= x <= cell_of(b.x) || cell_of(b.x) <= x <= cell_of(
            a.x,
        ))
    }
}

/// The cell lies on the play area: road and rock exist only here.
pub open spec fn cell_in_play(x: int, y: int) -> bool {
    0 <= x < GRID_COLS && 0 <= y < GRID_PLAY_ROWS
}

/// Some path segment covers the cell, and the cell is in play.
pub open spec fn on_road(pts: Seq<Vec2i>, x: int, y: int) -> bool {
    cell_in_play(x, y) && exists|i: int|
        0 <= i < pts.len() - 1 && seg_covers(#[trigger] pts[i], pts[i + 1], x, y)
}

/// A road cell stands within the diamond neighborhood of radius two around
/// the cell.
pub open spec fn near_road(pts: Seq<Vec2i>, x: int, y: int) -> bool {
    ||| on_road(pts, x, y - 2)
    ||| on_road(pts, x - 1, y - 1)
    ||| on_road(pts, x, y - 1)
    ||| on_road(pts, x + 1, y - 1)
    ||| on_road(pts, x - 2, y)
    ||| on_road(pts, x - 1, y)
    ||| on_road(pts, x + 1, y)
    ||| on_road(pts, x + 2, y)
    ||| on_road(pts, x - 1, y + 1)
    ||| on_road(pts, x, y + 1)
    ||| on_road(pts, x + 1, y + 1)
    ||| on_road(pts, x, y + 2)
}

/// What a cell of the terrain is: road where a segment covers it, rock where
/// a road cell stands within two steps, plain elsewhere and on every row
/// above the play area.
pub open spec fn classify_spec(pts: Seq<Vec2i>, x: int, y: int) -> RoadElement {
    if !cell_in_play(x, y) {
        RoadElement::Plain
    } else if on_road(pts, x, y) {
        RoadElement::Road
    } else if near_road(pts, x, y) {
        RoadElement::Rock
    } else {
        RoadElement::Plain
    }
}

/// The coordinates fall outside the play area, where neither road nor rock
/// may stand.
pub fn is_oob(x: i64, y: i64) -> (r: bool)
    ensures
        r <==> !cell_in_play(x as int, y as int),
{
    x < 0 || y < 0 || x >= GRID_COLS as i64 || y >= GRID_PLAY_ROWS as i64
}

/// The cell `(x, y)` lies on some path segment, in play.
fn cell_is_road(points: &Vec<Vec2i>, x: usize, y: usize) -> (r: bool)
    requires
        points_ok(points@),
        points_nonneg(points@),
    ensures
        r == on_road(points@, x as int, y as int),
{
    if x >= GRID_COLS || y >= GRID_PLAY_ROWS {
        return false;
    }
    let n = points.len();
    let mut i: usize = 0;
    while i < n - 1
        invariant
            points_ok(points@),
            points_nonneg(points@),
            n == points@.len(),
            0 <= i <= n - 1,
            cell_in_play(x as int, y as int),
            forall|j: int|
                0 <= j < i ==> !seg_covers(#[trigger] points@[j], points@[j + 1], x as int, y as int),
        decreases n - 1 - i,
    {
        let a = points[i];
        let b = points[i + 1];
        let covered = if a.x == b.x {
            let cx = a.x / 1_000;
            let cy1 = a.y / 1_000;
            let cy2 = b.y / 1_000;
            x as i64 == cx && ((cy1 <= y as i64 && y as i64 <= cy2) || (cy2 <= y as i64 && y as i64
                <= cy1))
        } else {
            let cy = a.y / 1_000;
            let cx1 = a.x / 1_000;
            let cx2 = b.x / 1_000;
            y as i64 == cy && ((cx1 <= x as i64 && x as i64 <= cx2) || (cx2 <= x as i64 && x as i64
                <= cx1))
        };
        if covered {
            proof {
                assert(seg_covers(points@[i as int], points@[i as int + 1], x as int, y as int));
            }
            return true;
        }
        i = i + 1;
    }
    false
}

/// Neighbor road test with bounds applied: a neighbor off the play area is
/// never road.
fn neighbor_is_road(points: &Vec<Vec2i>, x: usize, y: usize, dx: i64, dy: i64) -> (r: bool)
    requires
        points_ok(points@),
        points_nonneg(points@),
        x < GRID_COLS,
        y < GRID_PLAY_ROWS,
        -2 <= dx <= 2,
        -2 <= dy <= 2,
    ensures
        r == on_road(points@, x + dx, y + dy),
{
    let nx = x as i64 + dx;
    let ny = y as i64 + dy;
    if nx < 0 || ny < 0 || nx >= GRID_COLS as i64 || ny >= GRID_PLAY_ROWS as i64 {
        return false;
    }
    cell_is_road(points, nx as usize, ny as usize)
}

/// Classifies one terrain cell.
pub fn classify_cell(points: &Vec<Vec2i>, x: usize, y: usize) -> (r: RoadElement)
    requires
        points_ok(points@),
        points_nonneg(points@),
    ensures
        r == classify_spec(points@, x as int, y as int),
{
    if x >= GRID_COLS || y >= GRID_PLAY_ROWS {
        return RoadElement::Plain;
    }
    if cell_is_road(points, x, y) {
        return RoadElement::Road;
    }
    let near = neighbor_is_road(points, x, y, 0, -2) || neighbor_is_road(points, x, y, -1, -1)
        || neighbor_is_road(points, x, y, 0, -1) || neighbor_is_road(points, x, y, 1, -1)
        || neighbor_is_road(points, x, y, -2, 0) || neighbor_is_road(points, x, y, -1, 0)
        || neighbor_is_road(points, x, y, 1, 0) || neighbor_is_road(points, x, y, 2, 0)
        || neighbor_is_road(points, x, y, -1, 1) || neighbor_is_road(points, x, y, 0, 1)
        || neighbor_is_road(points, x, y, 1, 1) || neighbor_is_road(points, x, y, 0, 2);
    if near {
        RoadElement::Rock
    } else {
        RoadElement::Plain
    }
}

/// The whole terrain of a level, row by row: `elements[y][x]` classifies the
/// cell `(x, y)`.
pub fn road_grid(points: &Vec<Vec2i>) -> (r: Vec<Vec<RoadElement>>)
    requires
        points_ok(points@),
        points_nonneg(points@),
    ensures
        r@.len() == GRID_ROWS,
        forall|y: int| 0 <= y < GRID_ROWS ==> (#[trigger] r@[y])@.len() == GRID_COLS,
        forall|y: int, x: int|
            0 <= y < GRID_ROWS && 0 <= x < GRID_COLS ==> (#[trigger] r@[y]@[x]) == classify_spec(
                points@,
                x,
                y,
            ),
{
    let mut rows: Vec<Vec<RoadElement>> = Vec::new();
    let mut y: usize = 0;
    while y < GRID_ROWS
        invariant
            points_ok(points@),
            points_nonneg(points@),
            0 <= y <= GRID_ROWS,
            rows@.len() == y,
            forall|j: int| 0 <= j < y ==> (#[trigger] rows@[j])@.len() == GRID_COLS,
            forall|j: int, x: int|
                0 <= j < y && 0 <= x < GRID_COLS ==> (#[trigger] rows@[j]@[x]) == classify_spec(
                    points@,
                    x,
                    j,
                ),
        decreases GRID_ROWS - y,
    {
        let mut row: Vec<RoadElement> = Vec::new();
        let mut x: usize = 0;
        while x < GRID_COLS
            invariant
                points_ok(points@),
                points_nonneg(points@),
                0 <= x <= GRID_COLS,
                y < GRID_ROWS,
                row@.len() == x,
                forall|i: int|
                    0 <= i < x ==> (#[trigger] row@[i]) == classify_spec(points@, i, y as int),
            decreases GRID_COLS - x,
        {
            row.push(classify_cell(points, x, y));
            x = x + 1;
        }
        rows.push(row);
        y = y + 1;
    }
    rows
}

/// The terrain of the current level plus the set of occupied build cells.
#[derive(Clone, Eq, PartialEq, Debug)]
pub struct Grid {
    /// `elements[y][x]` classifies the cell `(x, y)`.
    pub elements: Vec<Vec<RoadElement>>,
    /// The build cells already holding a tower.
    pub towers: Vec<(usize, usize)>,
}

impl Grid {
    /// The terrain stands fully sized and classified against the points that
    /// built it.
    pub open spec fn terrain_matches(&self, pts: Seq<Vec2i>) -> bool {
        &&& self.elements@.len() == GRID_ROWS
        &&& forall|y: int| 0 <= y < GRID_ROWS ==> (#[trigger] self.elements@[y])@.len() == GRID_COLS
        &&& forall|y: int, x: int|
            0 <= y < GRID_ROWS && 0 <= x < GRID_COLS ==> (#[trigger] self.elements@[y]@[x])
                == classify_spec(pts, x, y)
    }

    /// The fresh terrain of a level: classified from the path's points, with
    /// no tower placed.
    pub fn new(points: &Vec<Vec2i>) -> (r: Grid)
        requires
            points_ok(points@),
            points_nonneg(points@),
        ensures
            r.terrain_matches(points@),
            r.towers@.len() == 0,
    {
        Grid { elements: road_grid(points), towers: Vec::new() }
    }

    /// A tower occupies the cell.
    pub open spec fn occupied_spec(&self, x: usize, y: usize) -> bool {
        self.towers@.contains((x, y))
    }

    pub fn occupied(&self, x: usize, y: usize) -> (r: bool)
        ensures
            r == self.occupied_spec(x, y),
    {
        let n = self.towers.len();
        let mut i: usize = 0;
        while i < n
            invariant
                0 <= i <= n,
                n == self.towers@.len(),
                forall|j: int| 0 <= j < i ==> (#[trigger] self.towers@[j]) != (x, y),
            decreases n - i,
        {
            let (tx, ty) = self.towers[i];
            if tx == x && ty == y {
                proof {
                    assert(self.towers@[i as int] == (x, y));
                }
                return true;
            }
            i = i + 1;
        }
        false
    }

    /// Marks the cell occupied.
    pub fn occupy(&mut self, x: usize, y: usize)
        ensures
            final(self).elements == old(self).elements,
            final(self).towers@ == old(self).towers@.push((x, y)),
    {
        self.towers.push((x, y));
    }

    /// Frees the cell: every entry for it leaves the set.
    pub fn free(&mut self, x: usize, y: usize)
        ensures
            final(self).elements == old(self).elements,
            forall|c: (usize, usize)|
                #[trigger] final(self).towers@.contains(c) <==> old(self).towers@.contains(c) && c
                    != (x, y),
    {
        let ghost before = self.towers@;
        let n = self.towers.len();
        let mut kept: Vec<(usize, usize)> = Vec::new();
        let mut i: usize = 0;
        while i < n
            invariant
                0 <= i <= n,
                n == before.len(),
                self.towers@ == before,
                forall|c: (usize, usize)|
                    #[trigger] kept@.contains(c) <==> before.take(i as int).contains(c) && c != (
                    x,
                    y,
                ),
            decreases n - i,
        {
            let (tx, ty) = self.towers[i];
            let ghost kept_before = kept@;
            if !(tx == x && ty == y) {
                kept.push((tx, ty));
            }
            proof {
                let t1 = before.take(i as int + 1);
                assert(t1.drop_last() =~= before.take(i as int));
                assert(t1.last() == before[i as int]);
                assert forall|c: (usize, usize)| #[trigger] t1.contains(c) <==> before.take(
                    i as int,
                ).contains(c) || c == before[i as int] by {
                    if t1.contains(c) {
                        let k = choose|k: int| 0 <= k < t1.len() && t1[k] == c;
                        if k < i {
                            assert(before.take(i as int)[k] == c);
                        }
                    }
                    if before.take(i as int).contains(c) {
                        let k = choose|k: int|
                            0 <= k < before.take(i as int).len() && before.take(i as int)[k] == c;
                        assert(t1[k] == c);
                    }
                    if c == before[i as int] {
                        assert(t1[i as int] == c);
                    }
                }
                if !(before[i as int] == (x, y)) {
                    assert(kept@ == kept_before.push(before[i as int]));
                    assert forall|c: (usize, usize)| #[trigger] kept@.contains(c) <==> kept_before
                        .contains(c) || c == before[i as int] by {
                        if kept@.contains(c) {
                            let k = choose|k: int| 0 <= k < kept@.len() && kept@[k] == c;
                            if k < kept_before.len() {
                                assert(kept_before[k] == c);
                            }
                        }
                        if kept_before.contains(c) {
                            let k = choose|k: int|
                                0 <= k < kept_before.len() && kept_before[k] == c;
                            assert(kept@[k] == c);
                        }
                        assert(kept@[kept@.len() - 1] == before[i as int]);
                    }
                }
            }
            i = i + 1;
        }
        proof {
            assert(before.take(n as int) =~= before);
        }
        self.towers = kept;
    }

    /// The element at a play-area cell.
    pub fn element_at(&self, x: usize, y: usize) -> (r: RoadElement)
        requires
            self.elements@.len() == GRID_ROWS,
            forall|y0: int|
                0 <= y0 < GRID_ROWS ==> (#[trigger] self.elements@[y0])@.len() == GRID_COLS,
            x < GRID_COLS,
            y < GRID_ROWS,
        ensures
            r == self.elements@[y as int]@[x as int],
    {
        self.elements[y][x]
    }

    /// A tower may be placed exactly on an unoccupied rock cell.
    pub fn buildable(&self, x: usize, y: usize) -> (r: bool)
        requires
            self.elements@.len() == GRID_ROWS,
            forall|y0: int|
                0 <= y0 < GRID_ROWS ==> (#[trigger] self.elements@[y0])@.len() == GRID_COLS,
        ensures
            r <==> x < GRID_COLS && y < GRID_ROWS && self.elements@[y as int]@[x as int]
                is Rock && !self.occupied_spec(x, y),
    {
        if x >= GRID_COLS || y >= GRID_ROWS {
            return false;
        }
        let e = self.element_at(x, y);
        match e {
            RoadElement::Rock => !self.occupied(x, y),
            _ => false,
        }
    }
}

} // verus!
