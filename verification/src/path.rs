//! Polyline path with arc-length parameterization.
//!
//! A path is an ordered list of waypoints; consecutive waypoints always share
//! one coordinate, so every segment is axis-aligned and its length is exact in
//! integer arithmetic. `pos` converts a scalar distance travelled from the
//! start of the path into a 2-D position on the path.

use vstd::prelude::*;

verus! {

/// A 2-D point or vector, in thousandths of a tile side.
#[derive(Clone, Copy, PartialEq, Eq, Structural, Debug)]
pub struct Vec2i {
    pub x: i64,
    pub y: i64,
}

/// Largest magnitude a path coordinate may have: one thousand tiles.
pub const MAX_COORD: i64 = 1_000_000;

/// Largest number of waypoints a path may have.
pub const MAX_POINTS: usize = 100_000;

pub open spec fn abs_i(v: int) -> int {
    if v < 0 { -v } else { v }
}

pub open spec fn coord_ok(p: Vec2i) -> bool {
    &&& -MAX_COORD <= p.x <= MAX_COORD
    &&& -MAX_COORD <= p.y <= MAX_COORD
}

/// Consecutive waypoints must share one coordinate.
pub open spec fn axis_aligned(a: Vec2i, b: Vec2i) -> bool {
    a.x == b.x || a.y == b.y
}

/// Length of the axis-aligned segment from `a` to `b`.
pub open spec fn seg_len(a: Vec2i, b: Vec2i) -> int {
    if a.x == b.x { abs_i(b.y - a.y) } else { abs_i(b.x - a.x) }
}

/// Total length of the polyline through `s`.
pub open spec fn total_len(s: Seq<Vec2i>) -> int
    decreases s.len(),
{
    if s.len() <= 1 {
        0
    } else {
        seg_len(s[0], s[1]) + total_len(s.skip(1))
    }
}

/// The point `d` length units from `a` toward `b` on an axis-aligned segment.
pub open spec fn step(a: Vec2i, b: Vec2i, d: int) -> (int, int) {
    if a.x == b.x {
        (a.x as int, if b.y >= a.y { a.y + d } else { a.y - d })
    } else {
        (if b.x >= a.x { a.x + d } else { a.x - d }, a.y as int)
    }
}

/// The point `d` length units along the polyline `s`, for `0 <= d < total_len(s)`.
pub open spec fn walk(s: Seq<Vec2i>, d: int) -> (int, int)
    decreases s.len(),
{
    if s.len() <= 1 {
        (s[0].x as int, s[0].y as int)
    } else if d < seg_len(s[0], s[1]) {
        step(s[0], s[1], d)
    } else {
        walk(s.skip(1), d - seg_len(s[0], s[1]))
    }
}

/// What walking `d` length units along the polyline `s` returns: nothing for a
/// negative distance, the final waypoint once the path is exhausted, and the
/// interpolated in-segment position otherwise.
pub open spec fn position_spec(s: Seq<Vec2i>, d: int) -> Option<(int, int)> {
    if d < 0 {
        None
    } else if d >= total_len(s) {
        Some((s.last().x as int, s.last().y as int))
    } else {
        Some(walk(s, d))
    }
}

/// Well-formed input for building a path.
pub open spec fn points_ok(s: Seq<Vec2i>) -> bool {
    &&& 1 <= s.len() <= MAX_POINTS
    &&& forall|i: int| 0 <= i < s.len() ==> coord_ok(#[trigger] s[i])
    &&& forall|i: int| 0 <= i < s.len() - 1 ==> axis_aligned(#[trigger] s[i], s[i + 1])
}

pub proof fn lemma_seg_len_bounds(a: Vec2i, b: Vec2i)
    requires
        coord_ok(a),
        coord_ok(b),
    ensures
        0 <= seg_len(a, b) <= 2 * MAX_COORD,
{
}

pub proof fn lemma_total_len_bounds(s: Seq<Vec2i>)
    requires
        forall|i: int| 0 <= i < s.len() ==> coord_ok(#[trigger] s[i]),
    ensures
        0 <= total_len(s),
        s.len() >= 1 ==> total_len(s) <= 2 * MAX_COORD * (s.len() - 1),
    decreases s.len(),
{
    if s.len() > 1 {
        lemma_total_len_bounds(s.skip(1));
        lemma_seg_len_bounds(s[0], s[1]);
    }
}

/// Cumulative length through segment `i` extends the previous cumulative
/// length by segment `i`'s length.
pub proof fn lemma_total_len_take_step(s: Seq<Vec2i>, i: int)
    requires
        0 <= i < s.len() - 1,
    ensures
        total_len(s.take(i + 2)) == total_len(s.take(i + 1)) + seg_len(s[i], s[i + 1]),
    decreases i,
{
    if i == 0 {
        let t = s.take(2);
        assert(t.len() == 2);
        assert(total_len(t) == seg_len(t[0], t[1]) + total_len(t.skip(1)));
        assert(t.skip(1).len() == 1);
        assert(s.take(1).len() == 1);
    } else {
        lemma_total_len_take_step(s.skip(1), i - 1);
        assert(s.take(i + 2).skip(1) =~= s.skip(1).take(i + 1));
        assert(s.take(i + 1).skip(1) =~= s.skip(1).take(i));
        assert(total_len(s.take(i + 2)) == seg_len(s[0], s[1]) + total_len(s.skip(1).take(i + 1)));
        assert(total_len(s.take(i + 1)) == seg_len(s[0], s[1]) + total_len(s.skip(1).take(i)));
        assert(s.skip(1)[i - 1] == s[i]);
        assert(s.skip(1)[i] == s[i + 1]);
    }
}

/// An immutable polyline with cached per-segment and cumulative lengths.
pub struct Path {
    /// The waypoints, in thousandths of a tile side.
    pub points: Vec<Vec2i>,
    /// Total length of the path.
    pub length: i64,
    /// Length of each segment.
    pub segments: Vec<i64>,
    /// Cumulative length through each segment.
    pub combined: Vec<i64>,
}

impl Path {
    pub open spec fn wf(&self) -> bool {
        &&& points_ok(self.points@)
        &&& self.segments@.len() == self.points@.len() - 1
        &&& self.combined@.len() == self.segments@.len()
        &&& forall|i: int|
            0 <= i < self.segments@.len() ==> #[trigger] self.segments@[i] as int == seg_len(
                self.points@[i],
                self.points@[i + 1],
            )
        &&& forall|i: int|
            0 <= i < self.combined@.len() ==> #[trigger] self.combined@[i] as int == total_len(
                self.points@.take(i + 2),
            )
        &&& self.length as int == total_len(self.points@)
    }

    /// Builds a path from its waypoints, computing every segment length and
    /// the cumulative lengths.
    pub fn from_points(points: Vec<Vec2i>) -> (r: Path)
        requires
            points_ok(points@),
        ensures
            r.wf(),
            r.points@ == points@,
    {
        let ghost pts = points@;
        let mut length: i64 = 0;
        let mut segments: Vec<i64> = Vec::new();
        let mut combined: Vec<i64> = Vec::new();

        proof {
            assert(pts.take(1) =~= seq![pts[0]]);
        }
        let n = points.len();
        for i in 0..n - 1
            invariant
                points@ == pts,
                points_ok(pts),
                n == pts.len(),
                segments@.len() == i,
                combined@.len() == i,
                forall|j: int|
                    0 <= j < i ==> #[trigger] segments@[j] as int == seg_len(pts[j], pts[j + 1]),
                forall|j: int|
                    0 <= j < i ==> #[trigger] combined@[j] as int == total_len(pts.take(j + 2)),
                length as int == total_len(pts.take(i + 1)),
                0 <= length,
        {
            let p1 = points[i];
            let p2 = points[i + 1];
            let distance: i64 = if p1.x == p2.x {
                if p2.y >= p1.y {
                    p2.y - p1.y
                } else {
                    p1.y - p2.y
                }
            } else {
                if p2.x >= p1.x {
                    p2.x - p1.x
                } else {
                    p1.x - p2.x
                }
            };
            proof {
                assert(distance as int == seg_len(pts[i as int], pts[i as int + 1]));
                lemma_total_len_take_step(pts, i as int);
                let t = pts.take(i as int + 2);
                assert forall|j: int| 0 <= j < t.len() implies coord_ok(#[trigger] t[j]) by {
                    assert(t[j] == pts[j]);
                }
                lemma_total_len_bounds(t);
                assert(2 * MAX_COORD * (t.len() - 1) <= 2 * MAX_COORD * MAX_POINTS)
                    by (nonlinear_arith)
                    requires 1 <= t.len() <= MAX_POINTS;
                assert(pts.take(i as int + 2).len() == i + 2);
            }
            length = length + distance;
            segments.push(distance);
            combined.push(length);
        }
        proof {
            assert(pts.take(n as int) =~= pts);
        }
        Path { points, length, segments, combined }
    }

    /// Returns the position on the path after walking `advance` length units:
    /// nothing for a negative distance, the final waypoint once the distance
    /// reaches the path's total length, and the interpolated in-segment
    /// position otherwise.
    pub fn pos(&self, advance: i64) -> (r: Option<Vec2i>)
        requires
            self.wf(),
        ensures
            match r {
                None => advance < 0,
                Some(p) => advance >= 0 && Some((p.x as int, p.y as int)) == position_spec(
                    self.points@,
                    advance as int,
                ) && coord_ok(p),
            },
    {
        if advance < 0 {
            return None;
        }
        if advance >= self.length {
            return Some(self.points[self.points.len() - 1]);
        }
        let ghost pts = self.points@;
        let mut i: usize = 0;
        let mut rem: i64 = advance;
        proof {
            assert(pts.skip(0) =~= pts);
        }
        loop
            invariant
                self.wf(),
                pts == self.points@,
                0 <= i < pts.len(),
                0 <= rem,
                (rem as int) < total_len(pts.skip(i as int)),
                walk(pts.skip(i as int), rem as int) == walk(pts, advance as int),
                (advance as int) < total_len(pts),
                advance >= 0,
            decreases pts.len() - i,
        {
            proof {
                if i + 1 >= pts.len() {
                    assert(total_len(pts.skip(i as int)) == 0);
                }
            }
            let p1 = self.points[i];
            let p2 = self.points[i + 1];
            let seg: i64 = if p1.x == p2.x {
                if p2.y >= p1.y {
                    p2.y - p1.y
                } else {
                    p1.y - p2.y
                }
            } else {
                if p2.x >= p1.x {
                    p2.x - p1.x
                } else {
                    p1.x - p2.x
                }
            };
            proof {
                assert(pts.skip(i as int)[0] == pts[i as int]);
                assert(pts.skip(i as int)[1] == pts[i as int + 1]);
                assert(seg as int == seg_len(pts[i as int], pts[i as int + 1]));
            }
            if rem < seg {
                let q: Vec2i = if p1.x == p2.x {
                    Vec2i { x: p1.x, y: if p2.y >= p1.y { p1.y + rem } else { p1.y - rem } }
                } else {
                    Vec2i { x: if p2.x >= p1.x { p1.x + rem } else { p1.x - rem }, y: p1.y }
                };
                proof {
                    assert(walk(pts.skip(i as int), rem as int) == step(
                        pts[i as int],
                        pts[i as int + 1],
                        rem as int,
                    ));
                }
                return Some(q);
            }
            proof {
                assert(pts.skip(i as int).skip(1) =~= pts.skip(i as int + 1));
                assert(walk(pts.skip(i as int), rem as int) == walk(
                    pts.skip(i as int + 1),
                    rem as int - seg as int,
                ));
                assert(total_len(pts.skip(i as int)) == seg as int + total_len(
                    pts.skip(i as int + 1),
                ));
            }
            rem = rem - seg;
            i = i + 1;
        }
    }

    /// True exactly when a drone that advanced `advance` length units has
    /// reached the end of the path.
    pub fn drone_won(&self, advance: i64) -> (r: bool)
        requires
            self.wf(),
        ensures
            r <==> (advance as int) >= total_len(self.points@),
    {
        advance >= self.length
    }
}

} // verus!

verus! {

/// Width of the play area in grid cells, in thousandths of a tile side.
pub const GRID_WIDTH: i64 = 20_000;

/// The authored waypoint list of a level, ready to be turned into a `Path`.
/// Levels outside the authored range share one long straight lane.
pub fn path_of_level_n(level: u8) -> (r: Vec<Vec2i>)
    ensures
        points_ok(r@),
        forall|i: int| 0 <= i < r@.len() ==> (#[trigger] r@[i]).x >= 0 && r@[i].y >= 0,
{
    match level {
        1 => vec![
            Vec2i { x: 0, y: 5_000 },
            Vec2i { x: 3_000, y: 5_000 },
            Vec2i { x: 3_000, y: 3_000 },
            Vec2i { x: 8_000, y: 3_000 },
            Vec2i { x: 8_000, y: 5_000 },
            Vec2i { x: 11_000, y: 5_000 },
            Vec2i { x: 11_000, y: 3_000 },
            Vec2i { x: 16_000, y: 3_000 },
            Vec2i { x: 16_000, y: 5_000 },
            Vec2i { x: GRID_WIDTH, y: 5_000 },
        ],
        2 => vec![
            Vec2i { x: 0, y: 7_000 },
            Vec2i { x: 4_000, y: 7_000 },
            Vec2i { x: 4_000, y: 6_000 },
            Vec2i { x: 13_000, y: 6_000 },
            Vec2i { x: 13_000, y: 7_000 },
            Vec2i { x: 15_000, y: 7_000 },
            Vec2i { x: 15_000, y: 4_000 },
            Vec2i { x: 4_000, y: 4_000 },
            Vec2i { x: 4_000, y: 1_000 },
            Vec2i { x: 6_000, y: 1_000 },
            Vec2i { x: 6_000, y: 2_000 },
            Vec2i { x: 15_000, y: 2_000 },
            Vec2i { x: 15_000, y: 1_000 },
            Vec2i { x: GRID_WIDTH, y: 1_000 },
        ],
        3 => vec![
            Vec2i { x: 10_000, y: 5_000 },
            Vec2i { x: 7_000, y: 5_000 },
            Vec2i { x: 7_000, y: 3_000 },
            Vec2i { x: 13_000, y: 3_000 },
            Vec2i { x: 13_000, y: 7_000 },
            Vec2i { x: 5_000, y: 7_000 },
            Vec2i { x: 5_000, y: 1_000 },
            Vec2i { x: 15_000, y: 1_000 },
            Vec2i { x: 15_000, y: 2_000 },
            Vec2i { x: GRID_WIDTH, y: 2_000 },
        ],
        4 => vec![
            Vec2i { x: 9_000, y: 0 },
            Vec2i { x: 9_000, y: 1_000 },
            Vec2i { x: 3_000, y: 1_000 },
            Vec2i { x: 3_000, y: 7_000 },
            Vec2i { x: 17_000, y: 7_000 },
            Vec2i { x: 17_000, y: 1_000 },
            Vec2i { x: 11_000, y: 1_000 },
            Vec2i { x: 11_000, y: 0 },
        ],
        5 => vec![
            Vec2i { x: 0, y: 7_000 },
            Vec2i { x: 12_000, y: 7_000 },
            Vec2i { x: 12_000, y: 6_000 },
            Vec2i { x: 12_000, y: 5_000 },
            Vec2i { x: 11_000, y: 5_000 },
            Vec2i { x: 11_000, y: 4_000 },
            Vec2i { x: 10_000, y: 4_000 },
            Vec2i { x: 10_000, y: 3_000 },
            Vec2i { x: 9_000, y: 3_000 },
            Vec2i { x: 9_000, y: 2_000 },
            Vec2i { x: 8_000, y: 2_000 },
            Vec2i { x: 8_000, y: 1_000 },
            Vec2i { x: GRID_WIDTH, y: 1_000 },
        ],
        _ => vec![Vec2i { x: 0, y: 4_000 }, Vec2i { x: GRID_WIDTH, y: 4_000 }],
    }
}

} // verus!
