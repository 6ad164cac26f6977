//! Tower models, their economics, their firing state machine and target
//! selection.

use vstd::prelude::*;

use crate::path::{coord_ok, Vec2i, MAX_COORD};
use crate::shot::Shots;
use crate::sprites::{tiles_in_block, TILE};
use crate::tower_stats;
use crate::tower_stats::{MAX_DAMAGE, MIN_DAMAGE};

verus! {

/// The tower models the player can build.
#[derive(Copy, Clone, Eq, PartialEq, Structural, Debug)]
pub enum Towers {
    Lightning,
    PaintBomb,
    Scrambler,
}

/// A placed tower: its model, its upgrade rank and its grid cell.
#[derive(Copy, Clone, Eq, PartialEq, Structural, Debug)]
pub struct Tower {
    pub model: Towers,
    pub rank: u8,
    pub x: usize,
    pub y: usize,
}

/// Grid cells across the play area.
pub const GRID_CELLS_X: usize = 20;

/// Grid cells up the play area.
pub const GRID_CELLS_Y: usize = 9;

impl Tower {
    /// Ranks run from 1 to 3 and the cell lies on the grid.
    pub open spec fn wf(&self) -> bool {
        &&& 1 <= self.rank <= 3
        &&& self.x < GRID_CELLS_X
        &&& self.y < GRID_CELLS_Y
    }

    pub fn reload_delay(&self) -> (r: u64)
        ensures
            r == tower_stats::reload_delay_spec(self.model, self.rank),
    {
        tower_stats::reload_delay(self)
    }

    pub fn range(&self) -> (r: i64)
        ensures
            r == tower_stats::range_spec(self.model, self.rank),
            0 < r <= 56_000,
    {
        tower_stats::range(self)
    }

    pub fn damage(&self) -> (r: i64)
        ensures
            r == tower_stats::damage_spec(self.model, self.rank),
            0 <= r <= MAX_DAMAGE,
    {
        tower_stats::damage(self)
    }

    pub fn shot_speed(&self) -> (r: i64)
        ensures
            r == 120_000,
    {
        tower_stats::shot_speed(self)
    }

    pub fn slow_factor(&self) -> (r: i64)
        requires
            self.model is Scrambler,
        ensures
            r == tower_stats::slow_factor_spec(self.rank),
            0 < r < 1_000,
    {
        tower_stats::slow_factor(self)
    }

    /// Price of the next rank: twice the base cost from rank 1, four times
    /// from rank 2, and nothing at the top rank.
    pub fn upgrade_cost(&self) -> (r: Option<u16>)
        ensures
            self.rank == 1 ==> r == Some((2 * self.model.get_cost_spec()) as u16),
            self.rank == 2 ==> r == Some((4 * self.model.get_cost_spec()) as u16),
            self.rank != 1 && self.rank != 2 ==> r is None,
            match r {
                Some(c) => self.upgrade_cost_spec() == Some(c as int),
                None => self.upgrade_cost_spec() is None,
            },
    {
        match self.rank {
            1 => Some(2 * self.model.get_cost()),
            2 => Some(4 * self.model.get_cost()),
            _ => None,
        }
    }

    /// Price of the next rank as a value, for contracts.
    pub open spec fn upgrade_cost_spec(&self) -> Option<int> {
        if self.rank == 1 {
            Some(2 * self.model.get_cost_spec() as int)
        } else if self.rank == 2 {
            Some(4 * self.model.get_cost_spec() as int)
        } else {
            None
        }
    }

    /// Refund for selling the tower as a value, for contracts.
    pub open spec fn sell_price_spec(&self) -> int {
        if self.rank == 1 {
            self.model.get_cost_spec() as int / 2
        } else if self.rank == 2 {
            self.model.get_cost_spec() as int * 3 / 2
        } else {
            self.model.get_cost_spec() as int * 7 / 2
        }
    }

    /// Refund for selling the tower, growing with its rank.
    pub fn sell_price(&self) -> (r: u16)
        ensures
            r == self.sell_price_spec(),
            self.rank == 1 ==> r == self.model.get_cost_spec() as int / 2,
            self.rank == 2 ==> r == self.model.get_cost_spec() as int * 3 / 2,
            self.rank != 1 && self.rank != 2 ==> r == self.model.get_cost_spec() as int * 7 / 2,
    {
        match self.rank {
            1 => self.model.get_cost() / 2,
            2 => self.model.get_cost() * 3 / 2,
            _ => self.model.get_cost() * 7 / 2,
        }
    }

    /// Damage indicator on a one-to-ten scale for damage-dealing towers, and
    /// three times the rank for the effect-only tower.
    pub fn get_attr1(&self) -> (r: Option<u8>)
        requires
            self.wf(),
        ensures
            match r {
                Some(v) => if self.model is Scrambler {
                    v == self.rank * 3
                } else {
                    v == (tower_stats::damage_spec(self.model, self.rank) - MIN_DAMAGE) * 9 / (
                    MAX_DAMAGE - MIN_DAMAGE) + 1
                },
                None => false,
            },
    {
        match self.model {
            Towers::Lightning | Towers::PaintBomb => {
                let d = self.damage();
                Some((((d - MIN_DAMAGE) * 9 / (MAX_DAMAGE - MIN_DAMAGE)) + 1) as u8)
            },
            Towers::Scrambler => Some(self.rank * 3),
        }
    }

    /// Firing-speed indicator on a one-to-ten scale: the reload delay's
    /// reciprocal mapped linearly between the table's extremes.
    #[verifier::rlimit(50)]
    pub fn get_attr2(&self) -> (r: Option<u8>)
        ensures
            match r {
                Some(v) => v == (tower_stats::MAX_RELOAD - tower_stats::reload_delay_spec(
                    self.model,
                    self.rank,
                )) * 9 / (2 * tower_stats::reload_delay_spec(self.model, self.rank)) + 1,
                None => false,
            },
    {
        let d = self.reload_delay();
        let v: u64 = ((tower_stats::MAX_RELOAD - d) * 9 / (2 * d)) + 1;
        proof {
            assert(d == 2_000 || d == 2_500 || d == 3_000 || d == 5_000 || d == 5_500
                || d == 6_000);
            assert(v == if d == 2_000 {
                10int
            } else if d == 2_500 {
                7int
            } else if d == 3_000 {
                5int
            } else {
                1int
            }) by (nonlinear_arith)
                requires
                    d == 2_000 || d == 2_500 || d == 3_000 || d == 5_000 || d == 5_500 || d
                        == 6_000,
                    v == ((6_000u64 - d) * 9 / (2 * d)) + 1,
            ;
        }
        Some(v as u8)
    }
}

/// The cooldown that a tower enters after firing.
#[derive(Copy, Clone, Eq, PartialEq, Structural, Debug)]
pub struct JustFired {
    /// Time of firing, in milliseconds from battle start.
    pub t0: u64,
    /// Reloading time, in milliseconds from `t0`.
    pub delay: u64,
}

impl JustFired {
    pub fn new(now: u64, delay: u64) -> (r: Self)
        ensures
            r.t0 == now,
            r.delay == delay,
    {
        Self { t0: now, delay }
    }

    /// The tower is ready again exactly when the elapsed time since firing
    /// reaches the reload delay, however rarely this is checked.
    pub fn is_ready(&self, now: u64) -> (r: bool)
        requires
            self.t0 + self.delay <= u64::MAX,
        ensures
            r <==> self.t0 + self.delay <= now,
    {
        self.t0 + self.delay <= now
    }
}

impl Towers {
    pub fn instantiate(&self, x: usize, y: usize) -> (r: Tower)
        requires
            x < GRID_CELLS_X,
            y < GRID_CELLS_Y,
        ensures
            r == (Tower { model: *self, rank: 1, x, y }),
            r.wf(),
    {
        Tower { model: *self, rank: 1, x, y }
    }

    /// The projectile a model fires, as a value.
    pub open spec fn get_shot_spec(self) -> Option<Shots> {
        match self {
            Towers::Lightning => Some(Shots::Electricity),
            Towers::PaintBomb => Some(Shots::Bomb),
            Towers::Scrambler => None,
        }
    }

    /// The projectile a model fires; the effect-only tower fires none.
    pub fn get_shot(&self) -> (r: Option<Shots>)
        ensures
            r == self.get_shot_spec(),
    {
        match self {
            Towers::Lightning => Some(Shots::Electricity),
            Towers::PaintBomb => Some(Shots::Bomb),
            Towers::Scrambler => None,
        }
    }

    /// Columns and rows of the model's sprite, in tiles.
    pub open spec fn block_size(self) -> (int, int) {
        match self {
            Towers::Lightning | Towers::PaintBomb => (2, 3),
            Towers::Scrambler => (1, 3),
        }
    }

    /// The sprite tiles of the model, filling exactly its block.
    pub fn get_tiles(&self) -> (r: Vec<TILE>)
        ensures
            r@.len() >= 1,
            tiles_in_block(r@),
            forall|k: int|
                0 <= k < r@.len() ==> (#[trigger] r@[k]).0 < self.block_size().0 && r@[k].1
                    < self.block_size().1,
            exists|k: int| 0 <= k < r@.len() && (#[trigger] r@[k]).0 == self.block_size().0 - 1,
            exists|k: int| 0 <= k < r@.len() && (#[trigger] r@[k]).1 == self.block_size().1 - 1,
    {
        match self {
            Towers::Lightning => vec![
                (0, 2, 163, 16, 8, false, 0),
                (1, 2, 164, 16, 8, false, 0),
                (0, 1, 195, 16, 15, false, 0),
                (1, 1, 196, 16, 15, false, 0),
                (0, 0, 227, 16, 15, false, 0),
                (1, 0, 228, 16, 15, false, 0),
            ],
            Towers::PaintBomb => vec![
                (0, 2, 160, 16, 15, false, 0),
                (1, 2, 161, 16, 15, false, 0),
                (0, 1, 192, 16, 14, false, 0),
                (1, 1, 193, 16, 14, false, 0),
                (0, 0, 224, 16, 14, false, 0),
                (1, 0, 225, 16, 14, false, 0),
            ],
            Towers::Scrambler => vec![
                (0, 2, 238, 16, 2, false, 0),
                (0, 1, 200, 16, 15, false, 0),
                (0, 0, 232, 16, 15, false, 0),
            ],
        }
    }

    /// The cooldown a tower starts with on construction, in milliseconds.
    pub fn initial_delay(&self) -> (r: u64)
        ensures
            r == 2_000,
    {
        2_000
    }

    pub open spec fn get_cost_spec(self) -> u16 {
        match self {
            Towers::Lightning => 40,
            Towers::PaintBomb => 60,
            Towers::Scrambler => 50,
        }
    }

    /// Base building cost of the model.
    pub fn get_cost(&self) -> (r: u16)
        ensures
            r == self.get_cost_spec(),
    {
        match self {
            Towers::Lightning => 40,
            Towers::PaintBomb => 60,
            Towers::Scrambler => 50,
        }
    }
}

/// A transient speed reduction applied to an enemy: the speed multiplier in
/// thousandths, and the time at which the effect expires.
#[derive(Copy, Clone, Eq, PartialEq, Structural, Debug)]
pub struct Slow {
    pub factor: i64,
    pub t_final: u64,
}

impl Slow {
    /// The effect expires exactly when the shared clock reaches its expiry
    /// time, independent of any contact event.
    pub fn expired(&self, now: u64) -> (r: bool)
        ensures
            r <==> self.t_final <= now,
    {
        self.t_final <= now
    }
}

/// What target selection sees of one live enemy: its world position and its
/// path advance.
#[derive(Copy, Clone, Eq, PartialEq, Structural, Debug)]
pub struct TargetView {
    pub pos: Vec2i,
    pub advance: i64,
}

/// Squared Euclidean distance between two points.
pub open spec fn dist2(a: Vec2i, b: Vec2i) -> int {
    (a.x - b.x) * (a.x - b.x) + (a.y - b.y) * (a.y - b.y)
}

/// The point `p` lies within `range` of `center`.
pub open spec fn in_range_spec(center: Vec2i, p: Vec2i, range: i64) -> bool {
    dist2(center, p) <= range * range
}

/// Range test by squared distances, exact in integer arithmetic.
pub fn in_range(center: Vec2i, p: Vec2i, range: i64) -> (r: bool)
    requires
        coord_ok(center),
        coord_ok(p),
        0 <= range <= MAX_COORD,
    ensures
        r == in_range_spec(center, p, range),
{
    let dx = center.x - p.x;
    let dy = center.y - p.y;
    proof {
        lemma_square_bound(dx as int);
        lemma_square_bound(dy as int);
        lemma_square_bound(range as int);
    }
    dx * dx + dy * dy <= range * range
}

/// Squaring ignores the sign.
pub proof fn lemma_square_neg(x: int)
    ensures
        x * x == (-x) * (-x),
{
    assert(x * x == (-x) * (-x)) by (nonlinear_arith);
}

/// An axis gap whose square stays below the next square is bounded by the
/// distance itself.
pub proof fn lemma_axis_within_distance(dx: int, d: int)
    requires
        0 <= d,
        dx * dx < (d + 1) * (d + 1),
    ensures
        dx * dx <= d * d,
{
    let m: int = if dx < 0 {
        -dx
    } else {
        dx
    };
    lemma_square_neg(dx);
    assert(m * m == dx * dx);
    if m > d {
        vstd::arithmetic::mul::lemma_mul_inequality(d + 1, m, d + 1);
        vstd::arithmetic::mul::lemma_mul_inequality(d + 1, m, m);
        assert(false);
    }
    vstd::arithmetic::mul::lemma_mul_inequality(m, d, m);
    vstd::arithmetic::mul::lemma_mul_inequality(m, d, d);
}

/// A coordinate difference's square is non-negative and bounded.
pub proof fn lemma_square_bound(v: int)
    requires
        -2 * MAX_COORD <= v <= 2 * MAX_COORD,
    ensures
        0 <= v * v <= 4 * MAX_COORD * MAX_COORD,
{
    assert(0 <= v * v <= 4 * MAX_COORD * MAX_COORD) by (nonlinear_arith)
        requires -2 * MAX_COORD <= v <= 2 * MAX_COORD;
}

/// World-space center of the tower standing on a grid cell, as a value.
pub open spec fn cell_center(x: usize, y: usize) -> Vec2i {
    Vec2i { x: ((2 * x + 1) * 8_000) as i64, y: ((2 * y + 1 + 6) * 8_000) as i64 }
}

/// World-space center of the tower standing on a grid cell.
pub fn tower_center(x: usize, y: usize) -> (r: Vec2i)
    requires
        x < GRID_CELLS_X,
        y < GRID_CELLS_Y,
    ensures
        r == cell_center(x, y),
        r.x == (2 * x + 1) * 8_000,
        r.y == (2 * y + 1 + 6) * 8_000,
        coord_ok(r),
{
    Vec2i { x: (2 * x as i64 + 1) * 8_000, y: (2 * y as i64 + 1 + 6) * 8_000 }
}

/// Euclidean distance from a tower's center to an enemy's center, rounded
/// down.
pub fn tower_to_enemy_distance(tower: &Tower, enemy_center: Vec2i) -> (r: i64)
    requires
        tower.wf(),
        coord_ok(enemy_center),
    ensures
        0 <= r <= 3_000_000,
        r * r <= dist2(cell_center(tower.x, tower.y), enemy_center),
        (r + 1) * (r + 1) > dist2(cell_center(tower.x, tower.y), enemy_center),
{
    let c = tower_center(tower.x, tower.y);
    let dx = c.x - enemy_center.x;
    let dy = c.y - enemy_center.y;
    proof {
        lemma_square_bound(dx as int);
        lemma_square_bound(dy as int);
    }
    isqrt(dx * dx + dy * dy)
}

/// Integer square root: the greatest value whose square does not exceed the
/// argument.
pub fn isqrt(n: i64) -> (r: i64)
    requires
        0 <= n <= 8_000_000_000_000,
    ensures
        0 <= r <= 3_000_000,
        r * r <= n,
        (r + 1) * (r + 1) > n,
{
    let mut lo: i64 = 0;
    let mut hi: i64 = 3_000_000;
    proof {
        assert(3_000_000i64 * 3_000_000i64 > 8_000_000_000_000);
    }
    while lo + 1 < hi
        invariant
            0 <= lo < hi <= 3_000_000,
            lo * lo <= n,
            hi * hi > n,
        decreases hi - lo,
    {
        let mid = lo + (hi - lo) / 2;
        proof {
            assert(lo < mid < hi);
            assert(0 <= mid * mid <= 9_000_000_000_000) by (nonlinear_arith)
                requires 0 <= mid <= 3_000_000;
        }
        if mid * mid <= n {
            lo = mid;
        } else {
            hi = mid;
        }
    }
    lo
}

/// Selects the target of a damage-dealing tower: among the enemies within
/// range of `tower_pos`, the one with the greatest path advance, ties broken
/// toward the last such enemy in iteration order.
pub fn pick_target(enemies: &Vec<TargetView>, tower_pos: Vec2i, range: i64) -> (r: Option<usize>)
    requires
        coord_ok(tower_pos),
        0 <= range <= MAX_COORD,
        forall|i: int| 0 <= i < enemies@.len() ==> coord_ok((#[trigger] enemies@[i]).pos),
    ensures
        match r {
            None => forall|i: int|
                0 <= i < enemies@.len() ==> !in_range_spec(
                    tower_pos,
                    (#[trigger] enemies@[i]).pos,
                    range,
                ),
            Some(b) => {
                &&& b < enemies@.len()
                &&& in_range_spec(tower_pos, enemies@[b as int].pos, range)
                &&& forall|i: int|
                    0 <= i < enemies@.len() && in_range_spec(
                        tower_pos,
                        (#[trigger] enemies@[i]).pos,
                        range,
                    ) ==> enemies@[i].advance <= enemies@[b as int].advance
                &&& forall|i: int|
                    b < i < enemies@.len() && in_range_spec(
                        tower_pos,
                        (#[trigger] enemies@[i]).pos,
                        range,
                    ) ==> enemies@[i].advance < enemies@[b as int].advance
            },
        },
{
    let mut best: Option<usize> = None;
    let n = enemies.len();
    let mut i: usize = 0;
    while i < n
        invariant
            0 <= i <= n,
            n == enemies@.len(),
            coord_ok(tower_pos),
            0 <= range <= MAX_COORD,
            forall|j: int| 0 <= j < n ==> coord_ok((#[trigger] enemies@[j]).pos),
            match best {
                None => forall|j: int|
                    0 <= j < i ==> !in_range_spec(tower_pos, (#[trigger] enemies@[j]).pos, range),
                Some(b) => {
                    &&& b < i
                    &&& in_range_spec(tower_pos, enemies@[b as int].pos, range)
                    &&& forall|j: int|
                        0 <= j < i && in_range_spec(
                            tower_pos,
                            (#[trigger] enemies@[j]).pos,
                            range,
                        ) ==> enemies@[j].advance <= enemies@[b as int].advance
                    &&& forall|j: int|
                        b < j < i && in_range_spec(
                            tower_pos,
                            (#[trigger] enemies@[j]).pos,
                            range,
                        ) ==> enemies@[j].advance < enemies@[b as int].advance
                },
            },
        decreases n - i,
    {
        let e = enemies[i];
        if in_range(tower_pos, e.pos, range) {
            match best {
                None => {
                    best = Some(i);
                },
                Some(b) => {
                    if enemies[b].advance <= e.advance {
                        best = Some(i);
                    }
                },
            }
        }
        i = i + 1;
    }
    best
}

} // verus!
