//! The battle state and the per-tick systems that drive it.
//!
//! One `BattleState` owns everything a battle mutates: currency, enemy and
//! tower rosters, projectiles, armed bombs, dropped packages, the wave
//! scheduler and the shared clock. Each system is a single synchronous state
//! transition; per tick they run in the order of `tick`.

use vstd::prelude::*;

use crate::collision::{collide, collide_post, Collider, Contact, HitBox};
use crate::drones::{advance_drone, apply_damage, Enemy};
use crate::grid::Grid;
use crate::package::{Package, PackageKind, MONEY_BIG, MONEY_CURSE, MONEY_SELL, MONEY_SMALL};
use crate::palette::Palette;
use crate::path::{Path, Vec2i};
use crate::shot::{Bomb, Shot, OMEGA_RANGE};
use crate::tower::{JustFired, Slow, Tower, Towers, GRID_CELLS_X, GRID_CELLS_Y};
use crate::tower_stats::OMEGA_DAMAGES;
use crate::waves::{Countdown, WaveIterator, WaveTick};

verus! {

/// How long an enemy's death animation takes before it despawns.
pub const DRONE_DEATH_MS: u64 = 1_600;

/// How long a bomb's visual explosion lasts before it is removed.
pub const BOMB_VISUAL_MS: u64 = 500;

/// How long an area slow lasts, in milliseconds.
pub const SLOW_DOWN_DELAY: u64 = 10_000;

/// Battle-end tallies: how many enemies were destroyed and how many escaped.
#[derive(Copy, Clone, Eq, PartialEq, Structural, Debug)]
pub struct DronesStats {
    pub killed: u32,
    pub survived: u32,
    /// How many enemies the scheduler has released.
    pub spawned: u32,
}

/// The currency balance: a non-negative amount, spent only when sufficient.
#[derive(Copy, Clone, Eq, PartialEq, Structural, Debug)]
pub struct Money(pub u32);

impl Money {
    /// Spending is all-or-nothing: an insufficient balance rejects the spend
    /// and leaves the balance unchanged; no partial spend, no debt.
    pub fn try_spend(&mut self, cost: u32) -> (ok: bool)
        ensures
            ok <==> old(self).0 >= cost,
            ok ==> final(self).0 == old(self).0 - cost,
            !ok ==> *final(self) == *old(self),
    {
        if self.0 >= cost {
            self.0 = self.0 - cost;
            true
        } else {
            false
        }
    }

    /// Gaining saturates at the balance type's top instead of overflowing.
    pub fn gain(&mut self, amount: u32)
        ensures
            final(self).0 == if old(self).0 + amount <= u32::MAX {
                old(self).0 + amount
            } else {
                u32::MAX as int
            },
    {
        if self.0 <= u32::MAX - amount {
            self.0 = self.0 + amount;
        } else {
            self.0 = u32::MAX;
        }
    }

    /// A malus subtracts, floored at zero.
    pub fn curse(&mut self, amount: u32)
        ensures
            final(self).0 == if old(self).0 >= amount {
                old(self).0 - amount
            } else {
                0
            },
    {
        if self.0 >= amount {
            self.0 = self.0 - amount;
        } else {
            self.0 = 0;
        }
    }
}

/// What the player's cursor does on a click.
#[derive(Copy, Clone, Eq, PartialEq, Structural, Debug)]
pub enum CursorState {
    /// Default state.
    Select,
    /// Place a tower.
    Build(Towers),
    /// Sell a tower.
    Sell,
    /// Upgrade a tower.
    Upgrade,
}

impl CursorState {
    /// The cursor's display color for each mode.
    pub fn get_color(&self) -> (r: Palette)
        ensures
            r == match *self {
                CursorState::Select => Palette::B,
                CursorState::Build(_) => Palette::C,
                CursorState::Sell => Palette::K,
                CursorState::Upgrade => Palette::G,
            },
    {
        match self {
            CursorState::Select => Palette::B,
            CursorState::Build(_) => Palette::C,
            CursorState::Sell => Palette::K,
            CursorState::Upgrade => Palette::G,
        }
    }
}

/// One economy action, as the balance sees it.
#[derive(Copy, Clone, Eq, PartialEq, Structural, Debug)]
pub enum EconomyAction {
    /// Spend this much; rejected outright if the balance is lower.
    Spend(u32),
    /// Gain this much (a sale, a loot collection).
    Gain(u32),
    /// Lose this much, floored at zero (a cursed package).
    Curse(u32),
}

/// What one action leaves of the balance: a spend that would overdraw is
/// rejected with the balance unchanged; gains saturate; a curse floors at
/// zero.
pub open spec fn econ_step(balance: int, a: EconomyAction) -> int {
    match a {
        EconomyAction::Spend(c) => if balance >= c {
            balance - c
        } else {
            balance
        },
        EconomyAction::Gain(g) => if balance + g <= u32::MAX {
            balance + g
        } else {
            u32::MAX as int
        },
        EconomyAction::Curse(m) => if balance >= m {
            balance - m
        } else {
            0
        },
    }
}

/// The balance after a whole sequence of actions.
pub open spec fn econ_run(balance: int, actions: Seq<EconomyAction>) -> int
    decreases actions.len(),
{
    if actions.len() == 0 {
        balance
    } else {
        econ_run(econ_step(balance, actions[0]), actions.skip(1))
    }
}

/// The economy invariant: under any sequence of place, sell, upgrade and
/// loot-collect actions, the balance never goes negative (a spend that would
/// overdraw is rejected with the balance unchanged), and never exceeds the
/// balance type's top.
pub proof fn lemma_economy_invariant(balance: int, actions: Seq<EconomyAction>)
    requires
        0 <= balance <= u32::MAX,
    ensures
        0 <= econ_run(balance, actions) <= u32::MAX,
    decreases actions.len(),
{
    if actions.len() > 0 {
        lemma_economy_invariant(econ_step(balance, actions[0]), actions.skip(1));
    }
}

/// A live enemy: its identity, its simulated core, its hit-volume, its world
/// position, a transient slow, and the loot it carries.
#[derive(Copy, Clone, Eq, PartialEq, Structural, Debug)]
pub struct DroneUnit {
    pub id: u64,
    pub enemy: Enemy,
    pub hitbox: HitBox,
    pub pos: Vec2i,
    pub slow: Option<Slow>,
    pub package: Option<Package>,
}

/// A defeated enemy playing its death animation; it despawns at `until`.
#[derive(Copy, Clone, Eq, PartialEq, Structural, Debug)]
pub struct DyingDrone {
    pub id: u64,
    pub until: u64,
}

/// A placed tower and its cooldown state: `Some` while cooling, `None` when
/// ready.
#[derive(Copy, Clone, Eq, PartialEq, Structural, Debug)]
pub struct TowerUnit {
    pub tower: Tower,
    pub pos: Vec2i,
    pub just_fired: Option<JustFired>,
}

/// A projectile in flight: it moves in a straight line from `start` toward
/// `end`, spawned at `t0`, arriving after `duration` milliseconds.
#[derive(Copy, Clone, Eq, PartialEq, Structural, Debug)]
pub struct ShotUnit {
    pub id: u64,
    pub shot: Shot,
    pub hitbox: HitBox,
    pub start: Vec2i,
    pub end: Vec2i,
    pub pos: Vec2i,
    pub t0: u64,
    pub duration: u64,
}

/// A bomb playing its visual explosion; its damage is already dealt.
#[derive(Copy, Clone, Eq, PartialEq, Structural, Debug)]
pub struct Explosion {
    pub bomb: Bomb,
    pub until: u64,
}

/// A collectible package lying on the road.
#[derive(Copy, Clone, Eq, PartialEq, Structural, Debug)]
pub struct PackageUnit {
    pub package: Package,
    pub pos: Vec2i,
}

} // verus!

verus! {

/// A drone is alive while its health is positive.
pub open spec fn drone_alive(d: DroneUnit) -> bool {
    d.enemy.stats.hp > 0
}

/// A drone unit's internal bounds.
pub open spec fn drone_unit_ok(d: DroneUnit) -> bool {
    &&& d.enemy.wf()
    &&& crate::collision::hitbox_ok(d.hitbox)
    &&& d.hitbox.body_type is Enemy
    &&& crate::path::coord_ok(d.pos)
    &&& match d.slow {
        Some(s) => 0 <= s.factor <= 1_000,
        None => true,
    }
}

pub open spec fn drones_ok(ds: Seq<DroneUnit>) -> bool {
    forall|i: int| 0 <= i < ds.len() ==> drone_unit_ok(#[trigger] ds[i])
}

/// Where a drone's sprite stands after moving: its path position doubled into
/// tiles and converted to world space, centered on the lane and raised over
/// the road; a position off the world (no real path reaches one) leaves the
/// sprite where it was.
pub open spec fn drone_sprite_pos(
    pts: Seq<Vec2i>,
    advance: i64,
    model: crate::sprites::DroneModels,
    fallback: Vec2i,
) -> Vec2i {
    match crate::path::position_spec(pts, advance as int) {
        Some(w) => {
            let px = 16 * w.0 - (crate::sprites::TILE_PX * model.block_size().0) / 2
                + crate::sprites::TILE_PX;
            let py = 16 * w.1 + 6 * crate::sprites::TILE_PX + crate::sprites::TILE_PX * 3 / 2;
            if -1_000_000 <= px <= 1_000_000 && -1_000_000 <= py <= 1_000_000 {
                Vec2i { x: px as i64, y: py as i64 }
            } else {
                fallback
            }
        },
        None => fallback,
    }
}

/// Movement driver: every drone advances by its effective speed (base speed
/// scaled by an active slow) times the elapsed time, and its sprite position
/// is recomputed from the path. Nothing else of any drone changes. A drone
/// whose advance is already beyond every path (it escaped long ago) stays
/// put.
pub fn update_drones(drones: &mut Vec<DroneUnit>, path: &Path, dt_ms: u64)
    requires
        drones_ok(old(drones)@),
        path.wf(),
        dt_ms <= crate::drones::MAX_TICK_MS,
    ensures
        drones_ok(final(drones)@),
        final(drones)@.len() == old(drones)@.len(),
        forall|i: int|
            0 <= i < old(drones)@.len() ==> {
                let d0 = old(drones)@[i];
                let d1 = #[trigger] final(drones)@[i];
                &&& d1.id == d0.id
                &&& d1.enemy.class == d0.enemy.class
                &&& d1.enemy.stats == d0.enemy.stats
                &&& d1.hitbox == d0.hitbox
                &&& d1.slow == d0.slow
                &&& d1.package == d0.package
                &&& d1.enemy.advance == if d0.enemy.advance + 1_000_000
                    <= crate::drones::MAX_ADVANCE {
                    d0.enemy.advance + crate::drones::effective_speed(
                        d0.enemy.stats.speed,
                        match d0.slow {
                            Some(s) => Some(s.factor),
                            None => None::<i64>,
                        },
                    ) * dt_ms / 1_000
                } else {
                    d0.enemy.advance as int
                }
                &&& d1.enemy.advance >= d0.enemy.advance
                &&& d1.pos == drone_sprite_pos(
                    path.points@,
                    d1.enemy.advance,
                    d0.enemy.class.model_spec(),
                    d0.pos,
                )
            },
{
    let ghost before = drones@;
    let n = drones.len();
    let mut updated: Vec<DroneUnit> = Vec::new();
    let mut i: usize = 0;
    while i < n
        invariant
            drones@ == before,
            drones_ok(before),
            path.wf(),
            dt_ms <= crate::drones::MAX_TICK_MS,
            n == before.len(),
            0 <= i <= n,
            updated@.len() == i,
            forall|j: int|
                0 <= j < i ==> {
                    let d0 = before[j];
                    let d1 = #[trigger] updated@[j];
                    &&& d1.id == d0.id
                    &&& d1.enemy.class == d0.enemy.class
                    &&& d1.enemy.stats == d0.enemy.stats
                    &&& d1.hitbox == d0.hitbox
                    &&& d1.slow == d0.slow
                    &&& d1.package == d0.package
                    &&& d1.enemy.advance == if d0.enemy.advance + 1_000_000
                        <= crate::drones::MAX_ADVANCE {
                        d0.enemy.advance + crate::drones::effective_speed(
                            d0.enemy.stats.speed,
                            match d0.slow {
                                Some(s) => Some(s.factor),
                                None => None::<i64>,
                            },
                        ) * dt_ms / 1_000
                    } else {
                        d0.enemy.advance as int
                    }
                    &&& d1.enemy.advance >= d0.enemy.advance
                    &&& d1.pos == drone_sprite_pos(
                        path.points@,
                        d1.enemy.advance,
                        d0.enemy.class.model_spec(),
                        d0.pos,
                    )
                    &&& drone_unit_ok(d1)
                },
        decreases n - i,
    {
        let mut d = drones[i];
        if d.enemy.advance <= crate::drones::MAX_ADVANCE - 1_000_000 {
            let slow_factor: Option<i64> = match d.slow {
                Some(s) => Some(s.factor),
                None => None,
            };
            advance_drone(&mut d.enemy, slow_factor, dt_ms);
        }
        if let Some(progress) = path.pos(d.enemy.advance) {
            let model = d.enemy.class.get_model();
            let tiles = model.get_tiles();
            let size = crate::collision::body_size(&tiles);
            proof {
                let ts = tiles@;
                let w = choose|w: int|
                    0 <= w < ts.len() && (#[trigger] ts[w]).0 == model.block_size().0 - 1;
                assert(crate::sprites::TILE_PX * (ts[w].0 + 1) <= size.x);
                assert(size.x == crate::sprites::TILE_PX * model.block_size().0);
            }
            let moved = crate::drones::drone_translation(progress, size);
            if -1_000_000 <= moved.x && moved.x <= 1_000_000 && -1_000_000 <= moved.y && moved.y
                <= 1_000_000 {
                d.pos = moved;
            }
        }
        updated.push(d);
        i = i + 1;
    }
    *drones = updated;
}

/// The slow effect expires once the shared clock reaches its expiry time,
/// independent of contact events; nothing else of any drone changes.
pub fn remove_slow_down(drones: &mut Vec<DroneUnit>, now: u64)
    ensures
        final(drones)@.len() == old(drones)@.len(),
        forall|i: int|
            0 <= i < old(drones)@.len() ==> {
                let d0 = old(drones)@[i];
                let d1 = #[trigger] final(drones)@[i];
                &&& d1 == (DroneUnit {
                    slow: if d0.slow matches Some(s) && s.t_final <= now {
                        None
                    } else {
                        d0.slow
                    },
                    ..d0
                })
            },
{
    let ghost before = drones@;
    let n = drones.len();
    let mut updated: Vec<DroneUnit> = Vec::new();
    let mut i: usize = 0;
    while i < n
        invariant
            drones@ == before,
            n == before.len(),
            0 <= i <= n,
            updated@.len() == i,
            forall|j: int|
                0 <= j < i ==> {
                    let d0 = before[j];
                    #[trigger] updated@[j] == (DroneUnit {
                        slow: if d0.slow matches Some(s) && s.t_final <= now {
                            None
                        } else {
                            d0.slow
                        },
                        ..d0
                    })
                },
        decreases n - i,
    {
        let mut d = drones[i];
        if let Some(s) = d.slow {
            if s.expired(now) {
                d.slow = None;
            }
        }
        updated.push(d);
        i = i + 1;
    }
    *drones = updated;
}

/// A tower leaves its cooldown exactly when the elapsed time since firing
/// reaches its reload delay, however rarely this runs.
pub fn update_just_fired(towers: &mut Vec<TowerUnit>, now: u64)
    requires
        forall|i: int|
            0 <= i < old(towers)@.len() ==> (match (#[trigger] old(towers)@[i]).just_fired {
                Some(jf) => jf.t0 + jf.delay <= u64::MAX,
                None => true,
            }),
    ensures
        final(towers)@.len() == old(towers)@.len(),
        forall|i: int|
            0 <= i < old(towers)@.len() ==> {
                let t0 = old(towers)@[i];
                #[trigger] final(towers)@[i] == (TowerUnit {
                    just_fired: if t0.just_fired matches Some(jf) && jf.t0 + jf.delay <= now {
                        None
                    } else {
                        t0.just_fired
                    },
                    ..t0
                })
            },
{
    let ghost before = towers@;
    let n = towers.len();
    let mut updated: Vec<TowerUnit> = Vec::new();
    let mut i: usize = 0;
    while i < n
        invariant
            towers@ == before,
            n == before.len(),
            0 <= i <= n,
            updated@.len() == i,
            forall|j: int|
                0 <= j < n ==> (match (#[trigger] before[j]).just_fired {
                    Some(jf) => jf.t0 + jf.delay <= u64::MAX,
                    None => true,
                }),
            forall|j: int|
                0 <= j < i ==> {
                    let t0 = before[j];
                    #[trigger] updated@[j] == (TowerUnit {
                        just_fired: if t0.just_fired matches Some(jf) && jf.t0 + jf.delay <= now {
                            None
                        } else {
                            t0.just_fired
                        },
                        ..t0
                    })
                },
        decreases n - i,
    {
        let mut t = towers[i];
        if let Some(jf) = t.just_fired {
            if jf.is_ready(now) {
                t.just_fired = None;
            }
        }
        updated.push(t);
        i = i + 1;
    }
    *towers = updated;
}

/// Side exit of the enemy lifecycle: a drone whose advance reaches the
/// path's length escapes. Escaped drones are removed immediately, counted
/// toward the survived tally, and never enter the dying state.
#[verifier::loop_isolation(false)]
pub fn drone_won(drones: &mut Vec<DroneUnit>, stats: &mut DronesStats, path: &Path)
    requires
        path.wf(),
        old(stats).survived + old(drones)@.len() <= u32::MAX,
    ensures
        final(drones)@ == old(drones)@.filter(
            |d: DroneUnit| (d.enemy.advance as int) < crate::path::total_len(path.points@),
        ),
        final(stats).survived == old(stats).survived + old(drones)@.len() - final(
            drones
        )@.len(),
        final(stats).killed == old(stats).killed,
        final(stats).spawned == old(stats).spawned,
{
    let ghost before = drones@;
    let ghost pred = (|d: DroneUnit| (d.enemy.advance as int) < crate::path::total_len(
        path.points@,
    ));
    let n = drones.len();
    let mut kept: Vec<DroneUnit> = Vec::new();
    let mut escaped: u32 = 0;
    let mut i: usize = 0;
    proof {
        reveal(Seq::filter);
        assert(before.take(0int).filter(pred) =~= Seq::<DroneUnit>::empty());
    }
    while i < n
        invariant
            drones@ == before,
            path.wf(),
            n == before.len(),
            n <= u32::MAX,
            0 <= i <= n,
            kept@ == before.take(i as int).filter(pred),
            escaped == i - kept@.len(),
            kept@.len() <= i,
        decreases n - i,
    {
        let d = drones[i];
        proof {
            reveal(Seq::filter);
            let t1 = before.take(i as int + 1);
            assert(t1.drop_last() =~= before.take(i as int));
            assert(t1.last() == before[i as int]);
            assert(t1.filter(pred) == if pred(before[i as int]) {
                before.take(i as int).filter(pred).push(before[i as int])
            } else {
                before.take(i as int).filter(pred)
            });
        }
        if !path.drone_won(d.enemy.advance) {
            kept.push(d);
        } else {
            escaped = escaped + 1;
        }
        i = i + 1;
    }
    proof {
        assert(before.take(n as int) =~= before);
    }
    *drones = kept;
    stats.survived = stats.survived + escaped;
}

/// Death transitions despawn after the animation: a dying drone is removed
/// once the clock reaches its despawn time; the tallies do not change.
#[verifier::loop_isolation(false)]
pub fn despawn_drone(dying: &mut Vec<DyingDrone>, now: u64)
    ensures
        final(dying)@ == old(dying)@.filter(|d: DyingDrone| d.until > now),
{
    let ghost before = dying@;
    let ghost pred = (|d: DyingDrone| d.until > now);
    let n = dying.len();
    let mut kept: Vec<DyingDrone> = Vec::new();
    let mut i: usize = 0;
    proof {
        reveal(Seq::filter);
        assert(before.take(0int).filter(pred) =~= Seq::<DyingDrone>::empty());
    }
    while i < n
        invariant
            dying@ == before,
            n == before.len(),
            0 <= i <= n,
            kept@ == before.take(i as int).filter(pred),
        decreases n - i,
    {
        let d = dying[i];
        proof {
            reveal(Seq::filter);
            let t1 = before.take(i as int + 1);
            assert(t1.drop_last() =~= before.take(i as int));
            assert(t1.last() == before[i as int]);
            assert(t1.filter(pred) == if pred(before[i as int]) {
                before.take(i as int).filter(pred).push(before[i as int])
            } else {
                before.take(i as int).filter(pred)
            });
        }
        if d.until > now {
            kept.push(d);
        }
        i = i + 1;
    }
    proof {
        assert(before.take(n as int) =~= before);
    }
    *dying = kept;
}

/// A projectile is removed once its travel completes.
#[verifier::loop_isolation(false)]
pub fn remove_shots(shots: &mut Vec<ShotUnit>, now: u64)
    ensures
        final(shots)@ == old(shots)@.filter(|s: ShotUnit| s.t0 + s.duration > now),
{
    let ghost before = shots@;
    let ghost pred = (|s: ShotUnit| s.t0 + s.duration > now);
    let n = shots.len();
    let mut kept: Vec<ShotUnit> = Vec::new();
    let mut i: usize = 0;
    proof {
        reveal(Seq::filter);
        assert(before.take(0int).filter(pred) =~= Seq::<ShotUnit>::empty());
    }
    while i < n
        invariant
            shots@ == before,
            n == before.len(),
            0 <= i <= n,
            kept@ == before.take(i as int).filter(pred),
        decreases n - i,
    {
        let s = shots[i];
        proof {
            reveal(Seq::filter);
            let t1 = before.take(i as int + 1);
            assert(t1.drop_last() =~= before.take(i as int));
            assert(t1.last() == before[i as int]);
            assert(t1.filter(pred) == if pred(before[i as int]) {
                before.take(i as int).filter(pred).push(before[i as int])
            } else {
                before.take(i as int).filter(pred)
            });
        }
        if s.duration > now || s.t0 > now - s.duration {
            kept.push(s);
        }
        i = i + 1;
    }
    proof {
        assert(before.take(n as int) =~= before);
    }
    *shots = kept;
}

/// A bomb's visual explosion is removed once it has played out.
#[verifier::loop_isolation(false)]
pub fn bomb_exploded(exploding: &mut Vec<Explosion>, now: u64)
    ensures
        final(exploding)@ == old(exploding)@.filter(|e: Explosion| e.until > now),
{
    let ghost before = exploding@;
    let ghost pred = (|e: Explosion| e.until > now);
    let n = exploding.len();
    let mut kept: Vec<Explosion> = Vec::new();
    let mut i: usize = 0;
    proof {
        reveal(Seq::filter);
        assert(before.take(0int).filter(pred) =~= Seq::<Explosion>::empty());
    }
    while i < n
        invariant
            exploding@ == before,
            n == before.len(),
            0 <= i <= n,
            kept@ == before.take(i as int).filter(pred),
        decreases n - i,
    {
        let e = exploding[i];
        proof {
            reveal(Seq::filter);
            let t1 = before.take(i as int + 1);
            assert(t1.drop_last() =~= before.take(i as int));
            assert(t1.last() == before[i as int]);
            assert(t1.filter(pred) == if pred(before[i as int]) {
                before.take(i as int).filter(pred).push(before[i as int])
            } else {
                before.take(i as int).filter(pred)
            });
        }
        if e.until > now {
            kept.push(e);
        }
        i = i + 1;
    }
    proof {
        assert(before.take(n as int) =~= before);
    }
    *exploding = kept;
}

/// Fast-forward check: while no live enemy exists, the wave countdown is cut
/// short, never lengthened, and never below the floor.
pub fn skip_wave(waves: &mut WaveIterator, drones: &Vec<DroneUnit>)
    requires
        old(waves).wf(),
    ensures
        final(waves).wf(),
        final(waves).upcoming@ == old(waves).upcoming@,
        drones@.len() > 0 ==> *final(waves) == *old(waves),
        drones@.len() == 0 && old(waves).next.remaining_spec()
            >= crate::waves::FAST_FORWARD_THRESHOLD ==> final(waves).next.remaining_spec()
            == crate::waves::FAST_FORWARD_FLOOR,
        drones@.len() == 0 && old(waves).next.remaining_spec()
            < crate::waves::FAST_FORWARD_THRESHOLD ==> *final(waves) == *old(waves),
        final(waves).next.remaining_spec() <= old(waves).next.remaining_spec(),
        old(waves).next.remaining_spec() >= crate::waves::FAST_FORWARD_FLOOR ==> final(
            waves
        ).next.remaining_spec() >= crate::waves::FAST_FORWARD_FLOOR,
{
    if drones.len() == 0 {
        waves.next.fast_forward();
    }
}

} // verus!

verus! {

/// Largest value of the shared clock the simulation supports.
pub const MAX_CLOCK: u64 = 4_000_000_000_000;

pub open spec fn tower_unit_ok(t: TowerUnit) -> bool {
    &&& t.tower.wf()
    &&& 0 <= t.pos.x <= 900_000
    &&& 0 <= t.pos.y <= 900_000
    &&& match t.just_fired {
        Some(jf) => jf.t0 <= MAX_CLOCK && jf.delay <= 10_000,
        None => true,
    }
}

pub open spec fn towers_ok(ts: Seq<TowerUnit>) -> bool {
    forall|i: int| 0 <= i < ts.len() ==> tower_unit_ok(#[trigger] ts[i])
}

pub open spec fn shot_unit_ok(s: ShotUnit) -> bool {
    &&& crate::collision::hitbox_ok(s.hitbox)
    &&& s.hitbox.body_type is ShipShot
    &&& s.hitbox.single_hit
    &&& crate::path::coord_ok(s.start)
    &&& crate::path::coord_ok(s.end)
    &&& crate::path::coord_ok(s.pos)
    &&& 1 <= s.duration <= 1_000_000
    &&& s.t0 <= MAX_CLOCK
    &&& 0 <= s.shot.damage <= crate::tower_stats::MAX_DAMAGE
}

pub open spec fn shots_ok(ss: Seq<ShotUnit>) -> bool {
    forall|i: int| 0 <= i < ss.len() ==> shot_unit_ok(#[trigger] ss[i])
}

/// One scheduler step: advance the wave countdown; when it expires on a
/// release element, a fresh drone of the released type enters the battle at
/// the path's start, carrying a random package, and the spawn tally grows by
/// one. No other element changes the roster.
pub fn spawn_waves(
    waves: &mut WaveIterator,
    drones: &mut Vec<DroneUnit>,
    stats: &mut DronesStats,
    next_id: &mut u64,
    dt_ms: u64,
) -> (r: WaveTick)
    requires
        old(waves).wf(),
        old(stats).spawned < u32::MAX,
        *old(next_id) < u64::MAX,
    ensures
        final(waves).wf(),
        // The scheduler step itself: the countdown advances; on expiry
        // exactly the queue's last element is popped and the countdown
        // restarts with that element's wait.
        r is Waiting <==> (old(waves).next.fired || old(waves).next.elapsed + dt_ms < old(
            waves,
        ).next.duration),
        r is Waiting ==> final(waves).upcoming@ == old(waves).upcoming@ && final(waves).next == (
        Countdown {
            duration: old(waves).next.duration,
            elapsed: (if old(waves).next.elapsed + dt_ms >= old(waves).next.duration {
                old(waves).next.duration as int
            } else {
                old(waves).next.elapsed + dt_ms
            }) as u64,
            fired: old(waves).next.fired,
        }),
        !(r is Waiting) ==> (old(waves).upcoming@.len() == 0 <==> r is Exhausted),
        r is Exhausted ==> final(waves).upcoming@ == old(waves).upcoming@,
        (r is Spawn || r is NewWave) ==> {
            &&& old(waves).upcoming@.len() > 0
            &&& final(waves).upcoming@ == old(waves).upcoming@.drop_last()
            &&& final(waves).next == (Countdown {
                duration: crate::waves::element_delay(old(waves).upcoming@.last()),
                elapsed: 0,
                fired: false,
            })
            &&& match old(waves).upcoming@.last() {
                crate::waves::WaveIteratorElement::NextDrone(d, _) => r == WaveTick::Spawn(d),
                crate::waves::WaveIteratorElement::NextWave(_) => r is NewWave,
            }
        },
        match r {
            WaveTick::Spawn(class) => {
                &&& final(drones)@.len() == old(drones)@.len() + 1
                &&& forall|i: int|
                    0 <= i < old(drones)@.len() ==> #[trigger] final(drones)@[i] == old(
                        drones
                    )@[i]
                &&& final(drones)@.last().id == *old(next_id)
                &&& final(drones)@.last().enemy == (Enemy {
                    class,
                    stats: class.default_stats_spec(),
                    advance: 0,
                })
                &&& final(drones)@.last().slow is None
                &&& final(drones)@.last().package is Some
                &&& drone_unit_ok(final(drones)@.last())
                &&& final(stats).spawned == old(stats).spawned + 1
                &&& *final(next_id) == *old(next_id) + 1
            },
            _ => {
                &&& final(drones)@ == old(drones)@
                &&& *final(stats) == *old(stats)
                &&& *final(next_id) == *old(next_id)
            },
        },
        final(stats).killed == old(stats).killed,
        final(stats).survived == old(stats).survived,
{
    let tick = waves.tick(dt_ms);
    match tick {
        WaveTick::Spawn(class) => {
            let (enemy, hitbox) = class.instantiate();
            let unit = DroneUnit {
                id: *next_id,
                enemy,
                hitbox,
                pos: Vec2i { x: 0, y: 0 },
                slow: None,
                package: Some(Package::new()),
            };
            drones.push(unit);
            stats.spawned = stats.spawned + 1;
            *next_id = *next_id + 1;
            WaveTick::Spawn(class)
        },
        other => other,
    }
}

/// Where a tower placed on a grid cell stands in world space: the cell's
/// tiles, with the sprite centered horizontally and raised half a tile.
pub fn grid_to_tower_pos(x: usize, y: usize, t: Towers) -> (r: Vec2i)
    requires
        x < GRID_CELLS_X,
        y < GRID_CELLS_Y,
    ensures
        r.x == 16_000 * x + (16_000 - crate::sprites::TILE_PX * t.block_size().0) / 2,
        r.y == 16_000 * y + 6 * 8_000 + 4_000,
        0 <= r.x <= 900_000,
        0 <= r.y <= 900_000,
{
    let tiles = t.get_tiles();
    let size = crate::collision::body_size(&tiles);
    proof {
        let ts = tiles@;
        let k = choose|k: int| 0 <= k < ts.len() && (#[trigger] ts[k]).0 == t.block_size().0 - 1;
        assert(crate::sprites::TILE_PX * (ts[k].0 + 1) <= size.x);
        assert(size.x == crate::sprites::TILE_PX * t.block_size().0);
    }
    let dx = (16_000 - size.x) / 2;
    Vec2i { x: 16_000 * (x as i64) + dx, y: 16_000 * (y as i64) + 6 * 8_000 + 4_000 }
}

/// Applies the area slow of one effect tower: every drone within range
/// receives or refreshes the slow with a fixed-duration expiry,
/// simultaneously; drones out of range keep theirs.
pub fn apply_slow(drones: &mut Vec<DroneUnit>, center: Vec2i, range: i64, factor: i64, now: u64)
    requires
        drones_ok(old(drones)@),
        crate::path::coord_ok(center),
        0 <= range <= crate::path::MAX_COORD,
        0 < factor < 1_000,
        now <= MAX_CLOCK,
    ensures
        drones_ok(final(drones)@),
        final(drones)@.len() == old(drones)@.len(),
        forall|i: int|
            0 <= i < old(drones)@.len() ==> #[trigger] final(drones)@[i] == (DroneUnit {
                slow: if crate::tower::in_range_spec(center, old(drones)@[i].pos, range) {
                    Some(Slow { factor, t_final: (now + SLOW_DOWN_DELAY) as u64 })
                } else {
                    old(drones)@[i].slow
                },
                ..old(drones)@[i]
            }),
{
    let ghost before = drones@;
    let n = drones.len();
    let mut updated: Vec<DroneUnit> = Vec::new();
    let mut i: usize = 0;
    while i < n
        invariant
            drones@ == before,
            drones_ok(before),
            crate::path::coord_ok(center),
            0 <= range <= crate::path::MAX_COORD,
            0 < factor < 1_000,
            now <= MAX_CLOCK,
            n == before.len(),
            0 <= i <= n,
            updated@.len() == i,
            forall|j: int|
                0 <= j < i ==> #[trigger] updated@[j] == (DroneUnit {
                    slow: if crate::tower::in_range_spec(center, before[j].pos, range) {
                        Some(Slow { factor, t_final: (now + SLOW_DOWN_DELAY) as u64 })
                    } else {
                        before[j].slow
                    },
                    ..before[j]
                }),
        decreases n - i,
    {
        let mut d = drones[i];
        if crate::tower::in_range(center, d.pos, range) {
            d.slow = Some(Slow { factor, t_final: now + SLOW_DOWN_DELAY });
        }
        updated.push(d);
        i = i + 1;
    }
    *drones = updated;
}

/// One axis of the point `range` length units from `a` toward `t`, where
/// `dist` is the full distance from `a` to `t`, truncated toward `a`.
pub open spec fn project_spec(a: i64, t: i64, range: i64, dist: int) -> int {
    if t >= a {
        a + (t - a) * range / dist
    } else {
        a - (a - t) * range / dist
    }
}

/// The projectile stops one range-length out from its start toward `target`:
/// its end point interpolates along the start-to-target line by the ratio of
/// `range` to the (rounded-down) distance; a projectile spawned on its target
/// stays there.
pub open spec fn shot_end_toward(s: ShotUnit, target: Vec2i, range: i64) -> bool {
    exists|dist: int|
        {
            &&& 0 <= dist
            &&& #[trigger] (dist * dist) <= crate::tower::dist2(s.start, target)
            &&& (dist + 1) * (dist + 1) > crate::tower::dist2(s.start, target)
            &&& (dist == 0 ==> s.end == s.start)
            &&& (dist > 0 ==> s.end.x == project_spec(s.start.x, target.x, range, dist)
                && s.end.y == project_spec(s.start.y, target.y, range, dist))
        }
}

/// One axis of projecting a point `range` length units from `a` toward `t`,
/// where `dist` is the full distance from `a` to `t`.
fn project(a: i64, t: i64, range: i64, dist: i64) -> (r: i64)
    requires
        -2_000_000 <= a <= 2_000_000,
        -2_000_000 <= t <= 2_000_000,
        0 <= range <= 56_000,
        1 <= dist <= 6_000_000,
        (t - a) * (t - a) <= dist * dist,
    ensures
        r == project_spec(a, t, range, dist as int),
        a - range <= r <= a + range,
{
    let delta = t - a;
    let mag: i64 = if delta >= 0 {
        delta
    } else {
        -delta
    };
    proof {
        crate::tower::lemma_square_neg((t - a) as int);
        assert(mag * mag == (t - a) * (t - a));
        assert(mag <= dist) by (nonlinear_arith)
            requires
                0 <= mag,
                1 <= dist,
                mag * mag <= dist * dist,
        ;
        assert(0 <= mag * range <= 4_000_000 * 56_000) by (nonlinear_arith)
            requires
                0 <= mag <= 4_000_000,
                0 <= range <= 56_000,
        ;
        vstd::arithmetic::mul::lemma_mul_inequality(mag as int, dist as int, range as int);
        vstd::arithmetic::div_mod::lemma_div_is_ordered(
            (mag as int) * (range as int),
            (dist as int) * (range as int),
            dist as int,
        );
        assert((mag as int) * (range as int) == (range as int) * (mag as int))
            by (nonlinear_arith);
        assert((dist as int) * (range as int) == (range as int) * (dist as int))
            by (nonlinear_arith);
        assert((dist as int) * (range as int) / (dist as int) == range as int)
            by (nonlinear_arith)
            requires
                0 <= range as int,
                1 <= dist as int,
        ;
        vstd::arithmetic::div_mod::lemma_div_pos_is_pos(
            (mag as int) * (range as int),
            dist as int,
        );
    }
    let step: i64 = mag * range / dist;
    if delta >= 0 {
        a + step
    } else {
        a - step
    }
}

/// Spawns one projectile: it starts one pixel above the firing tower, moves
/// straight toward where the target stood, stopping one range-length out, and
/// travels for the time the tower's range takes at the shot's speed.
pub fn shoot(
    tower: &Tower,
    tower_pos: Vec2i,
    target: Vec2i,
    id: u64,
    now: u64,
) -> (r: ShotUnit)
    requires
        tower.wf(),
        !(tower.model is Scrambler),
        0 <= tower_pos.x <= 900_000,
        0 <= tower_pos.y <= 900_000,
        crate::path::coord_ok(target),
        now <= MAX_CLOCK,
    ensures
        shot_unit_ok(r),
        r.id == id,
        r.t0 == now,
        r.shot.damage == crate::tower_stats::damage_spec(tower.model, tower.rank),
        r.shot.class == (match tower.model.get_shot_spec() {
            Some(c) => c,
            None => r.shot.class,
        }),
        r.hitbox.body_type is ShipShot,
        r.hitbox.single_hit,
        r.start.x == tower_pos.x && r.start.y == tower_pos.y + 1_000,
        r.pos == r.start,
        r.duration == crate::tower_stats::range_spec(tower.model, tower.rank) * 1_000 / 120_000,
        shot_end_toward(r, target, crate::tower_stats::range_spec(tower.model, tower.rank)),
{
    let shot_kind = match tower.model.get_shot() {
        Some(k) => k,
        None => crate::shot::Shots::Electricity,
    };
    let (shot, hitbox) = shot_kind.instantiate(tower);
    let start = Vec2i { x: tower_pos.x, y: tower_pos.y + 1_000 };
    let range = tower.range();
    let d2 = {
        let dx = target.x - start.x;
        let dy = target.y - start.y;
        proof {
            crate::tower::lemma_square_bound(dx as int);
            crate::tower::lemma_square_bound(dy as int);
        }
        dx * dx + dy * dy
    };
    let dist = crate::tower::isqrt(d2);
    let end: Vec2i = if dist == 0 {
        start
    } else {
        proof {
            let dx = (target.x - start.x) as int;
            let dy = (target.y - start.y) as int;
            crate::tower::lemma_square_bound(dx);
            crate::tower::lemma_square_bound(dy);
            crate::tower::lemma_square_neg(dx);
            crate::tower::lemma_square_neg(dy);
            assert(crate::tower::dist2(start, target) == dx * dx + dy * dy);
            // Each axis gap is at most the rounded-down distance.
            assert(dx * dx < (dist + 1) * (dist + 1));
            crate::tower::lemma_axis_within_distance(dx, dist as int);
            assert(dy * dy < (dist + 1) * (dist + 1));
            crate::tower::lemma_axis_within_distance(dy, dist as int);
        }
        let ex = project(start.x, target.x, range, dist);
        let ey = project(start.y, target.y, range, dist);
        Vec2i { x: ex, y: ey }
    };
    proof {
        let dx = (target.x - start.x) as int;
        let dy = (target.y - start.y) as int;
        crate::tower::lemma_square_neg(dx);
        crate::tower::lemma_square_neg(dy);
        assert(crate::tower::dist2(start, target) == dx * dx + dy * dy);
        assert(0 <= dist && dist * dist <= crate::tower::dist2(start, target) && (dist + 1) * (
        dist + 1) > crate::tower::dist2(start, target));
    }
    let duration = (range as u64) * 1_000 / 120_000;
    proof {
        assert(range == crate::tower_stats::range_spec(tower.model, tower.rank));
        assert(32_000 <= range <= 56_000);
        assert(1 <= duration <= 1_000_000);
    }
    ShotUnit { id, shot, hitbox, start, end, pos: start, t0: now, duration }
}

/// Where the linear interpolation from `a` to `b` stands after `elapsed` of
/// `duration`: the travelled fraction of the gap, truncated toward the start.
pub open spec fn interpolate_spec(a: i64, b: i64, elapsed: u64, duration: u64) -> int {
    if b >= a {
        a + (b - a) * elapsed / (duration as int)
    } else {
        a - (a - b) * elapsed / (duration as int)
    }
}

/// Linear interpolation along one axis: the point `elapsed / duration` of
/// the way from `a` to `b`, exact in integer arithmetic up to truncation; the
/// result never leaves the segment.
pub fn interpolate(a: i64, b: i64, elapsed: u64, duration: u64) -> (r: i64)
    requires
        -1_000_000 <= a <= 1_000_000,
        -1_000_000 <= b <= 1_000_000,
        1 <= duration <= 1_000_000,
        elapsed <= duration,
    ensures
        r == interpolate_spec(a, b, elapsed, duration),
        a <= b ==> a <= r <= b,
        b <= a ==> b <= r <= a,
        elapsed == 0 ==> r == a,
        elapsed == duration ==> r == b,
{
    let delta = b - a;
    let mag: i64 = if delta >= 0 {
        delta
    } else {
        -delta
    };
    proof {
        assert(0 <= mag * (elapsed as i64) <= 2_000_000_000_000) by (nonlinear_arith)
            requires
                0 <= mag <= 2_000_000,
                0 <= elapsed as i64 <= 1_000_000,
        ;
        assert((mag as int) * (duration as int) / (duration as int) == mag as int)
            by (nonlinear_arith)
            requires
                0 <= mag as int,
                1 <= duration as int,
        ;
        vstd::arithmetic::mul::lemma_mul_inequality(
            elapsed as int,
            duration as int,
            mag as int,
        );
        vstd::arithmetic::div_mod::lemma_div_is_ordered(
            (elapsed as int) * (mag as int),
            (duration as int) * (mag as int),
            duration as int,
        );
        assert((elapsed as int) * (mag as int) == (mag as int) * (elapsed as int))
            by (nonlinear_arith);
        assert((duration as int) * (mag as int) == (mag as int) * (duration as int))
            by (nonlinear_arith);
        vstd::arithmetic::div_mod::lemma_div_pos_is_pos(
            (mag as int) * (elapsed as int),
            duration as int,
        );
        if elapsed == 0 {
            assert(0int * (duration as i64) == 0) by (nonlinear_arith);
            assert((mag as int) * 0 == 0) by (nonlinear_arith);
        }
    }
    let step: i64 = mag * (elapsed as i64) / (duration as i64);
    if delta >= 0 {
        a + step
    } else {
        a - step
    }
}

/// How much of a projectile's travel time has passed at `now`, capped at the
/// full duration.
pub open spec fn travel_elapsed(t0: u64, duration: u64, now: u64) -> u64 {
    if now < t0 {
        0u64
    } else if now - t0 >= duration {
        duration
    } else {
        (now - t0) as u64
    }
}

/// Each projectile's position interpolates linearly from its start to its
/// end over its travel time.
pub fn move_shots(shots: &mut Vec<ShotUnit>, now: u64)
    requires
        shots_ok(old(shots)@),
        now <= MAX_CLOCK,
    ensures
        shots_ok(final(shots)@),
        final(shots)@.len() == old(shots)@.len(),
        forall|i: int|
            0 <= i < old(shots)@.len() ==> {
                let s0 = old(shots)@[i];
                let s1 = #[trigger] final(shots)@[i];
                &&& s1.id == s0.id
                &&& s1.shot == s0.shot
                &&& s1.hitbox == s0.hitbox
                &&& s1.start == s0.start
                &&& s1.end == s0.end
                &&& s1.t0 == s0.t0
                &&& s1.duration == s0.duration
                &&& s1.pos.x == interpolate_spec(
                    s0.start.x,
                    s0.end.x,
                    travel_elapsed(s0.t0, s0.duration, now),
                    s0.duration,
                )
                &&& s1.pos.y == interpolate_spec(
                    s0.start.y,
                    s0.end.y,
                    travel_elapsed(s0.t0, s0.duration, now),
                    s0.duration,
                )
            },
{
    let ghost before = shots@;
    let n = shots.len();
    let mut updated: Vec<ShotUnit> = Vec::new();
    let mut i: usize = 0;
    while i < n
        invariant
            shots@ == before,
            shots_ok(before),
            now <= MAX_CLOCK,
            n == before.len(),
            0 <= i <= n,
            updated@.len() == i,
            forall|j: int|
                0 <= j < i ==> {
                    let s0 = before[j];
                    let s1 = #[trigger] updated@[j];
                    &&& s1.id == s0.id
                    &&& s1.shot == s0.shot
                    &&& s1.hitbox == s0.hitbox
                    &&& s1.start == s0.start
                    &&& s1.end == s0.end
                    &&& s1.t0 == s0.t0
                    &&& s1.duration == s0.duration
                    &&& s1.pos.x == interpolate_spec(
                        s0.start.x,
                        s0.end.x,
                        travel_elapsed(s0.t0, s0.duration, now),
                        s0.duration,
                    )
                    &&& s1.pos.y == interpolate_spec(
                        s0.start.y,
                        s0.end.y,
                        travel_elapsed(s0.t0, s0.duration, now),
                        s0.duration,
                    )
                    &&& shot_unit_ok(s1)
                },
        decreases n - i,
    {
        let mut s = shots[i];
        let elapsed: u64 = if now >= s.t0 {
            if now - s.t0 >= s.duration {
                s.duration
            } else {
                now - s.t0
            }
        } else {
            0
        };
        let px = interpolate(s.start.x, s.end.x, elapsed, s.duration);
        let py = interpolate(s.start.y, s.end.y, elapsed, s.duration);
        s.pos = Vec2i { x: px, y: py };
        updated.push(s);
        i = i + 1;
    }
    *shots = updated;
}

} // verus!

verus! {

/// The hit-volume a drone presents to the collision pass.
pub open spec fn collider_of_drone(d: DroneUnit) -> Collider {
    Collider { hitbox: d.hitbox, pos: d.pos, id: d.id }
}

/// The hit-volume a projectile presents to the collision pass.
pub open spec fn collider_of_shot(s: ShotUnit) -> Collider {
    Collider { hitbox: s.hitbox, pos: s.pos, id: s.id }
}

/// All active hit-volumes of one tick: the drones' then the projectiles'.
pub open spec fn battle_colliders(drones: Seq<DroneUnit>, shots: Seq<ShotUnit>) -> Seq<Collider> {
    drones.map_values(|d: DroneUnit| collider_of_drone(d)) + shots.map_values(
        |s: ShotUnit| collider_of_shot(s),
    )
}

/// One collision pass over the battle's drones and projectiles, emitting the
/// tick's contact events under single-hit arbitration.
pub fn collide_pass(
    drones: &Vec<DroneUnit>,
    shots: &Vec<ShotUnit>,
    consumed: &mut Vec<u64>,
) -> (contacts: Vec<Contact>)
    requires
        drones_ok(drones@),
        shots_ok(shots@),
        crate::collision::distinct_ids(battle_colliders(drones@, shots@)),
    ensures
        collide_post(
            battle_colliders(drones@, shots@),
            old(consumed)@,
            final(consumed)@,
            contacts@,
        ),
{
    let ghost all = battle_colliders(drones@, shots@);
    let mut colliders: Vec<Collider> = Vec::new();
    let nd = drones.len();
    let mut i: usize = 0;
    while i < nd
        invariant
            0 <= i <= nd,
            nd == drones@.len(),
            colliders@.len() == i,
            forall|j: int| 0 <= j < i ==> #[trigger] colliders@[j] == collider_of_drone(
                drones@[j],
            ),
        decreases nd - i,
    {
        let d = drones[i];
        colliders.push(Collider { hitbox: d.hitbox, pos: d.pos, id: d.id });
        i = i + 1;
    }
    let ns = shots.len();
    let mut k: usize = 0;
    while k < ns
        invariant
            0 <= k <= ns,
            nd == drones@.len(),
            ns == shots@.len(),
            colliders@.len() == nd + k,
            forall|j: int| 0 <= j < nd ==> #[trigger] colliders@[j] == collider_of_drone(
                drones@[j],
            ),
            forall|j: int|
                nd <= j < nd + k ==> #[trigger] colliders@[j] == collider_of_shot(
                    shots@[j - nd],
                ),
        decreases ns - k,
    {
        let s = shots[k];
        colliders.push(Collider { hitbox: s.hitbox, pos: s.pos, id: s.id });
        k = k + 1;
    }
    proof {
        assert(colliders@ =~= all);
        assert forall|j: int| 0 <= j < all.len() implies crate::collision::collider_ok(
            #[trigger] all[j],
        ) by {
            if j < drones@.len() {
                assert(drone_unit_ok(drones@[j]));
            } else {
                assert(shot_unit_ok(shots@[j - drones@.len()]));
            }
        }
    }
    collide(&colliders, consumed)
}

/// Some contact of the tick names this identity.
pub open spec fn contact_names(contacts: Seq<Contact>, id: u64) -> bool {
    exists|k: int| 0 <= k < contacts.len() && crate::collision::involves(#[trigger] contacts[k], id)
}

/// The contact pairs one enemy body with one shot body, as every emitted
/// contact does.
pub open spec fn contact_mixed(c: Contact) -> bool {
    ||| (c.0.0 is Enemy && c.1.0 is ShipShot)
    ||| (c.0.0 is ShipShot && c.1.0 is Enemy)
}

/// The projectile identity a mixed contact names.
pub open spec fn shot_side(c: Contact) -> u64 {
    if c.0.0 is ShipShot {
        c.0.1
    } else {
        c.1.1
    }
}

/// Some contact of the tick names this projectile identity on its shot side.
pub open spec fn names_shot(contacts: Seq<Contact>, id: u64) -> bool {
    exists|k: int| 0 <= k < contacts.len() && shot_side(#[trigger] contacts[k]) == id
}

/// The index of the first projectile with this identity.
fn find_shot(shots: &Vec<ShotUnit>, id: u64) -> (r: Option<usize>)
    ensures
        match r {
            Some(i) => i < shots@.len() && shots@[i as int].id == id,
            None => forall|j: int| 0 <= j < shots@.len() ==> (#[trigger] shots@[j]).id != id,
        },
{
    let n = shots.len();
    let mut i: usize = 0;
    while i < n
        invariant
            0 <= i <= n,
            n == shots@.len(),
            forall|j: int| 0 <= j < i ==> (#[trigger] shots@[j]).id != id,
        decreases n - i,
    {
        if shots[i].id == id {
            return Some(i);
        }
        i = i + 1;
    }
    None
}

/// The index of the first drone with this identity.
fn find_drone(drones: &Vec<DroneUnit>, id: u64) -> (r: Option<usize>)
    ensures
        match r {
            Some(i) => i < drones@.len() && drones@[i as int].id == id,
            None => forall|j: int| 0 <= j < drones@.len() ==> (#[trigger] drones@[j]).id != id,
        },
{
    let n = drones.len();
    let mut i: usize = 0;
    while i < n
        invariant
            0 <= i <= n,
            n == drones@.len(),
            forall|j: int| 0 <= j < i ==> (#[trigger] drones@[j]).id != id,
        decreases n - i,
    {
        if drones[i].id == id {
            return Some(i);
        }
        i = i + 1;
    }
    None
}

/// Applies damage to the drone at one index, leaving every other drone as it
/// was.
fn damage_drone_at(drones: &mut Vec<DroneUnit>, i: usize, damage: i64)
    requires
        drones_ok(old(drones)@),
        i < old(drones)@.len(),
        0 <= damage,
    ensures
        drones_ok(final(drones)@),
        final(drones)@.len() == old(drones)@.len(),
        forall|j: int|
            0 <= j < old(drones)@.len() && j != i ==> #[trigger] final(drones)@[j] == old(
                drones
            )@[j],
        ({
            let d0 = old(drones)@[i as int];
            let d1 = final(drones)@[i as int];
            &&& d1.id == d0.id
            &&& d1.enemy.class == d0.enemy.class
            &&& d1.enemy.advance == d0.enemy.advance
            &&& d1.enemy.stats.speed == d0.enemy.stats.speed
            &&& d1.enemy.stats.hp == if damage >= d0.enemy.stats.hp {
                0int
            } else {
                d0.enemy.stats.hp - damage
            }
            &&& d1.hitbox == d0.hitbox
            &&& d1.pos == d0.pos
            &&& d1.slow == d0.slow
            &&& d1.package == d0.package
        }),
{
    let ghost before = drones@;
    let mut d = drones.remove(i);
    apply_damage(&mut d.enemy, damage);
    drones.insert(i, d);
    proof {
        assert forall|j: int|
            0 <= j < before.len() && j != i implies #[trigger] final(drones)@[j] == before[j] by {
        }
    }
}

/// Consumes the tick's contact events: for each contact naming an enemy and a
/// projectile, the projectile despawns; an electric projectile deals its
/// damage directly to that enemy, a bomb projectile deals none but arms a
/// bomb where it stopped. A drone named by no contact is untouched, and no
/// contact ever raises health.
/// The enemy identity a mixed contact names.
pub open spec fn enemy_side(c: Contact) -> u64 {
    if c.0.0 is Enemy {
        c.0.1
    } else {
        c.1.1
    }
}

/// The first projectile with this identity, if any.
pub open spec fn first_shot(shots: Seq<ShotUnit>, id: u64) -> Option<ShotUnit>
    decreases shots.len(),
{
    if shots.len() == 0 {
        None
    } else if shots[0].id == id {
        Some(shots[0])
    } else {
        first_shot(shots.skip(1), id)
    }
}

proof fn lemma_first_shot_at(shots: Seq<ShotUnit>, id: u64, i: int)
    requires
        0 <= i < shots.len(),
        shots[i].id == id,
        forall|j: int| 0 <= j < i ==> (#[trigger] shots[j]).id != id,
    ensures
        first_shot(shots, id) == Some(shots[i]),
    decreases i,
{
    if i > 0 {
        lemma_first_shot_at(shots.skip(1), id, i - 1);
        assert(shots.skip(1)[i - 1] == shots[i]);
        assert forall|j: int| 0 <= j < i - 1 implies (#[trigger] shots.skip(1)[j]).id != id by {
            assert(shots.skip(1)[j] == shots[j + 1]);
        }
    }
}

proof fn lemma_first_shot_absent(shots: Seq<ShotUnit>, id: u64)
    requires
        forall|j: int| 0 <= j < shots.len() ==> (#[trigger] shots[j]).id != id,
    ensures
        first_shot(shots, id) is None,
    decreases shots.len(),
{
    if shots.len() > 0 {
        lemma_first_shot_absent(shots.skip(1), id);
    }
}

proof fn lemma_first_shot_member(shots: Seq<ShotUnit>, id: u64)
    requires
        first_shot(shots, id) is Some,
    ensures
        shots.contains(first_shot(shots, id)->Some_0),
    decreases shots.len(),
{
    if shots.len() > 0 && shots[0].id != id {
        lemma_first_shot_member(shots.skip(1), id);
        let s = first_shot(shots, id)->Some_0;
        let w = choose|w: int| 0 <= w < shots.skip(1).len() && shots.skip(1)[w] == s;
        assert(shots[w + 1] == s);
    }
}

/// Electric damage the contacts deal to one enemy: every contact that names
/// the enemy together with a still-existing electric projectile contributes
/// that projectile's damage.
pub open spec fn electric_damage(
    contacts: Seq<Contact>,
    shots0: Seq<ShotUnit>,
    enemy_id: u64,
) -> int
    decreases contacts.len(),
{
    if contacts.len() == 0 {
        0
    } else {
        electric_damage(contacts.drop_last(), shots0, enemy_id) + if enemy_side(contacts.last())
            == enemy_id {
            match first_shot(shots0, shot_side(contacts.last())) {
                Some(s) => if s.shot.class is Electricity {
                    s.shot.damage as int
                } else {
                    0
                },
                None => 0,
            }
        } else {
            0
        }
    }
}

proof fn lemma_electric_damage_nonneg(contacts: Seq<Contact>, shots0: Seq<ShotUnit>, id: u64)
    requires
        shots_ok(shots0),
    ensures
        electric_damage(contacts, shots0, id) >= 0,
    decreases contacts.len(),
{
    if contacts.len() > 0 {
        lemma_electric_damage_nonneg(contacts.drop_last(), shots0, id);
        if first_shot(shots0, shot_side(contacts.last())) is Some {
            lemma_first_shot_member(shots0, shot_side(contacts.last()));
            let s = first_shot(shots0, shot_side(contacts.last()))->Some_0;
            let w = choose|w: int| 0 <= w < shots0.len() && shots0[w] == s;
            assert(shot_unit_ok(shots0[w]));
        }
    }
}

/// The bombs the contacts arm, in contact order: one per contact whose shot
/// side is a still-existing bomb projectile and whose enemy side is a live
/// drone — armed where the projectile stopped, with the fixed blast radius
/// and the projectile's damage.
pub open spec fn armed_bombs(
    contacts: Seq<Contact>,
    shots0: Seq<ShotUnit>,
    drones0: Seq<DroneUnit>,
) -> Seq<Bomb>
    decreases contacts.len(),
{
    if contacts.len() == 0 {
        Seq::empty()
    } else {
        let rest = armed_bombs(contacts.drop_last(), shots0, drones0);
        match first_shot(shots0, shot_side(contacts.last())) {
            Some(s) => if s.shot.class is Bomb && (exists|q: int|
                0 <= q < drones0.len() && (#[trigger] drones0[q]).id == enemy_side(
                    contacts.last(),
                )) {
                rest.push(
                    Bomb {
                        x: s.pos.x,
                        y: s.pos.y,
                        radius: crate::shot::BOMB_RANGE,
                        damages: s.shot.damage,
                    },
                )
            } else {
                rest
            },
            None => rest,
        }
    }
}

/// Whether some contact names this projectile identity on its shot side.
fn scan_names_shot(contacts: &Vec<Contact>, id: u64) -> (r: bool)
    ensures
        r == names_shot(contacts@, id),
{
    let n = contacts.len();
    let mut k: usize = 0;
    while k < n
        invariant
            0 <= k <= n,
            n == contacts@.len(),
            forall|q: int| 0 <= q < k ==> shot_side(#[trigger] contacts@[q]) != id,
        decreases n - k,
    {
        let c = contacts[k];
        let side = match c.0.0 {
            crate::collision::BodyType::ShipShot => c.0.1,
            crate::collision::BodyType::Enemy => c.1.1,
        };
        if side == id {
            proof {
                assert(shot_side(contacts@[k as int]) == id);
            }
            return true;
        }
        k = k + 1;
    }
    false
}

/// Every bomb the contacts arm is well-formed: it inherits a projectile's
/// resting position and damage, under the fixed blast radius.
proof fn lemma_armed_bombs_ok(contacts: Seq<Contact>, shots0: Seq<ShotUnit>, drones0: Seq<DroneUnit>)
    requires
        shots_ok(shots0),
    ensures
        bombs_ok(armed_bombs(contacts, shots0, drones0)),
    decreases contacts.len(),
{
    if contacts.len() > 0 {
        lemma_armed_bombs_ok(contacts.drop_last(), shots0, drones0);
        if first_shot(shots0, shot_side(contacts.last())) is Some {
            lemma_first_shot_member(shots0, shot_side(contacts.last()));
            let s = first_shot(shots0, shot_side(contacts.last()))->Some_0;
            let w = choose|w: int| 0 <= w < shots0.len() && shots0[w] == s;
            assert(shot_unit_ok(shots0[w]));
        }
    }
}

/// Contacts of one collision pass over the battle's rosters pair one enemy
/// body with one shot body, and name each projectile at most once: every
/// projectile's volume is single-hit.
proof fn lemma_contact_shape(
    drones: Seq<DroneUnit>,
    shots: Seq<ShotUnit>,
    consumed0: Seq<u64>,
    consumed1: Seq<u64>,
    contacts: Seq<Contact>,
)
    requires
        drones_ok(drones),
        shots_ok(shots),
        crate::collision::distinct_ids(battle_colliders(drones, shots)),
        collide_post(battle_colliders(drones, shots), consumed0, consumed1, contacts),
    ensures
        forall|k: int| 0 <= k < contacts.len() ==> contact_mixed(#[trigger] contacts[k]),
        forall|k1: int, k2: int|
            0 <= k1 < k2 < contacts.len() ==> shot_side(#[trigger] contacts[k1]) != shot_side(
                #[trigger] contacts[k2],
            ),
{
    let all = battle_colliders(drones, shots);
    let nd = drones.len() as int;
    assert forall|k: int| 0 <= k < contacts.len() implies contact_mixed(
        #[trigger] contacts[k],
    ) by {
        let (i, j): (int, int) = choose|i: int, j: int|
            0 <= i < j < all.len() && crate::collision::pair_qualifies(all, i, j) && contacts[k]
                == crate::collision::contact_of(all, i, j);
    }
    assert forall|k: int| 0 <= k < contacts.len() implies exists|w: int|
        nd <= w < all.len() && (#[trigger] all[w]).id == shot_side(#[trigger] contacts[k])
            && crate::collision::involves(contacts[k], all[w].id) by {
        let (i, j): (int, int) = choose|i: int, j: int|
            0 <= i < j < all.len() && crate::collision::pair_qualifies(all, i, j) && contacts[k]
                == crate::collision::contact_of(all, i, j);
        if i < nd {
            assert(all[i] == collider_of_drone(drones[i]));
            assert(drone_unit_ok(drones[i]));
        } else {
            assert(all[i] == collider_of_shot(shots[i - nd]));
            assert(shot_unit_ok(shots[i - nd]));
        }
        if j < nd {
            assert(all[j] == collider_of_drone(drones[j]));
            assert(drone_unit_ok(drones[j]));
        } else {
            assert(all[j] == collider_of_shot(shots[j - nd]));
            assert(shot_unit_ok(shots[j - nd]));
        }
        if all[i].hitbox.body_type is ShipShot {
            assert(nd <= i && all[i].id == shot_side(contacts[k]) && crate::collision::involves(
                contacts[k],
                all[i].id,
            ));
        } else {
            assert(nd <= j && all[j].id == shot_side(contacts[k]) && crate::collision::involves(
                contacts[k],
                all[j].id,
            ));
        }
    }
    assert forall|k1: int, k2: int|
        0 <= k1 < k2 < contacts.len() implies shot_side(#[trigger] contacts[k1]) != shot_side(
        #[trigger] contacts[k2],
    ) by {
        if shot_side(contacts[k1]) == shot_side(contacts[k2]) {
            let w1 = choose|w: int|
                nd <= w < all.len() && (#[trigger] all[w]).id == shot_side(contacts[k1])
                    && crate::collision::involves(contacts[k1], all[w].id);
            assert(all[w1] == collider_of_shot(shots[w1 - nd]));
            assert(shot_unit_ok(shots[w1 - nd]));
            assert(all[w1].hitbox.single_hit);
            assert(crate::collision::involves(contacts[k2], all[w1].id));
            assert(false);
        }
    }
}

/// Consumes the tick's contact events, in order. For each contact naming an
/// enemy and a projectile: the projectile despawns; an electric projectile
/// deals exactly its damage to that enemy, floored at zero; a bomb projectile
/// deals none but arms one bomb where it stopped, with the fixed blast radius
/// and the projectile's damage. A drone named by no contact is untouched.
/// Contacts name each projectile at most once, as the collision pass
/// guarantees of single-hit volumes.
#[verifier::loop_isolation(false)]
pub fn drones_dead(
    contacts: &Vec<Contact>,
    drones: &mut Vec<DroneUnit>,
    shots: &mut Vec<ShotUnit>,
    bombs: &mut Vec<Bomb>,
)
    requires
        drones_ok(old(drones)@),
        shots_ok(old(shots)@),
        forall|k1: int, k2: int|
            0 <= k1 < k2 < old(shots)@.len() ==> (#[trigger] old(shots)@[k1]).id != (
            #[trigger] old(shots)@[k2]).id,
        forall|k1: int, k2: int|
            0 <= k1 < k2 < old(drones)@.len() ==> (#[trigger] old(drones)@[k1]).id != (
            #[trigger] old(drones)@[k2]).id,
        forall|k: int| 0 <= k < contacts@.len() ==> contact_mixed(#[trigger] contacts@[k]),
        forall|k1: int, k2: int|
            0 <= k1 < k2 < contacts@.len() ==> shot_side(#[trigger] contacts@[k1]) != shot_side(
                #[trigger] contacts@[k2],
            ),
    ensures
        // Exactly the contacted projectiles despawn.
        final(shots)@ == old(shots)@.filter(
            |s: ShotUnit| !names_shot(contacts@, s.id),
        ),
        forall|s: ShotUnit| #[trigger] final(shots)@.contains(s) ==> old(shots)@.contains(s),
        forall|s: ShotUnit| #[trigger] final(shots)@.contains(s) ==> !names_shot(
            contacts@,
            s.id,
        ),
        forall|k1: int, k2: int|
            0 <= k1 < k2 < final(shots)@.len() ==> (#[trigger] final(shots)@[k1]).id != (
            #[trigger] final(shots)@[k2]).id,
        shots_ok(final(shots)@),
        // Each enemy loses exactly the electric damage its contacts deal.
        drones_ok(final(drones)@),
        final(drones)@.len() == old(drones)@.len(),
        forall|i: int|
            0 <= i < old(drones)@.len() ==> {
                let d0 = old(drones)@[i];
                let d1 = #[trigger] final(drones)@[i];
                &&& d1.id == d0.id
                &&& d1.enemy.class == d0.enemy.class
                &&& d1.enemy.advance == d0.enemy.advance
                &&& d1.enemy.stats.speed == d0.enemy.stats.speed
                &&& d1.hitbox == d0.hitbox
                &&& d1.pos == d0.pos
                &&& d1.slow == d0.slow
                &&& d1.package == d0.package
                &&& d1.enemy.stats.hp == (if electric_damage(contacts@, old(shots)@, d0.id)
                    >= d0.enemy.stats.hp {
                    0int
                } else {
                    d0.enemy.stats.hp - electric_damage(contacts@, old(shots)@, d0.id)
                })
                &&& (!contact_names(contacts@, d0.id) ==> d1 == d0)
            },
        // Exactly the bomb contacts arm bombs, in contact order.
        final(bombs)@ == old(bombs)@ + armed_bombs(contacts@, old(shots)@, old(drones)@),
{
    let ghost drones0 = drones@;
    let ghost shots0 = shots@;
    let ghost bombs0 = bombs@;
    let n = contacts.len();
    let mut k: usize = 0;
    proof {
        assert(bombs0 + armed_bombs(contacts@.take(0int), shots0, drones0) =~= bombs0);
    }
    while k < n
        invariant
            n == contacts@.len(),
            0 <= k <= n,
            forall|q: int| 0 <= q < contacts@.len() ==> contact_mixed(#[trigger] contacts@[q]),
            forall|k1: int, k2: int|
                0 <= k1 < k2 < contacts@.len() ==> shot_side(#[trigger] contacts@[k1])
                    != shot_side(#[trigger] contacts@[k2]),
            drones_ok(drones@),
            drones_ok(drones0),
            shots_ok(shots0),
            shots@ == shots0,
            forall|k1: int, k2: int|
                0 <= k1 < k2 < shots0.len() ==> (#[trigger] shots0[k1]).id != (
                #[trigger] shots0[k2]).id,
            forall|k1: int, k2: int|
                0 <= k1 < k2 < drones0.len() ==> (#[trigger] drones0[k1]).id != (
                #[trigger] drones0[k2]).id,
            drones@.len() == drones0.len(),
            forall|i: int|
                0 <= i < drones0.len() ==> {
                    let d0 = drones0[i];
                    let d1 = #[trigger] drones@[i];
                    &&& d1.id == d0.id
                    &&& d1.enemy.class == d0.enemy.class
                    &&& d1.enemy.advance == d0.enemy.advance
                    &&& d1.enemy.stats.speed == d0.enemy.stats.speed
                    &&& d1.hitbox == d0.hitbox
                    &&& d1.pos == d0.pos
                    &&& d1.slow == d0.slow
                    &&& d1.package == d0.package
                    &&& d1.enemy.stats.hp == (if electric_damage(
                        contacts@.take(k as int),
                        shots0,
                        d0.id,
                    ) >= d0.enemy.stats.hp {
                        0int
                    } else {
                        d0.enemy.stats.hp - electric_damage(contacts@.take(k as int), shots0, d0.id)
                    })
                    &&& (!contact_names(contacts@.take(k as int), d0.id) ==> d1 == d0)
                },
            bombs@ == bombs0 + armed_bombs(contacts@.take(k as int), shots0, drones0),
        decreases n - k,
    {
        let c = contacts[k];
        let ghost tk = contacts@.take(k as int);
        let ghost tk1 = contacts@.take(k as int + 1);
        proof {
            assert(tk1.drop_last() =~= tk);
            assert(tk1.last() == contacts@[k as int]);
            assert forall|id: u64| contact_names(tk, id) implies contact_names(tk1, id) by {
                let q = choose|q: int|
                    0 <= q < tk.len() && crate::collision::involves(#[trigger] tk[q], id);
                assert(crate::collision::involves(tk1[q], id));
            }
            assert forall|id: u64|
                contact_names(tk1, id) && !crate::collision::involves(
                    contacts@[k as int],
                    id,
                ) implies contact_names(tk, id) by {
                let q = choose|q: int|
                    0 <= q < tk1.len() && crate::collision::involves(#[trigger] tk1[q], id);
                assert(crate::collision::involves(tk[q], id));
            }
            assert(contact_mixed(contacts@[k as int]));
        }
        let pair: (u64, u64) = match (c.0.0, c.1.0) {
            (crate::collision::BodyType::Enemy, _) => (c.0.1, c.1.1),
            (crate::collision::BodyType::ShipShot, _) => (c.1.1, c.0.1),
        };
        let (e_enemy, e_shot) = pair;
        proof {
            assert(e_shot == shot_side(contacts@[k as int]));
            assert(e_enemy == enemy_side(contacts@[k as int]));
        }
        match find_shot(shots, e_shot) {
            Some(si) => {
                let shot_unit = shots[si];
                proof {
                    lemma_first_shot_at(shots0, e_shot, si as int);
                    assert(first_shot(shots0, e_shot) == Some(shot_unit));
                }
                match shot_unit.shot.class {
                    crate::shot::Shots::Bomb => {
                        match find_drone(drones, e_enemy) {
                            Some(di) => {
                                proof {
                                    assert(drones@[di as int].id == drones0[di as int].id);
                                    assert(drones0[di as int].id == e_enemy);
                                }
                                spawn_bomb(
                                    Bomb::from_shot_translation(shot_unit.shot, shot_unit.pos),
                                    bombs,
                                );
                                proof {
                                    assert(bombs@ =~= bombs0 + armed_bombs(tk1, shots0, drones0));
                                }
                            },
                            None => {
                                proof {
                                    assert forall|q: int|
                                        0 <= q < drones0.len() implies (#[trigger] drones0[q]).id
                                        != e_enemy by {
                                        assert(drones@[q].id == drones0[q].id);
                                    }
                                    assert(armed_bombs(tk1, shots0, drones0) =~= armed_bombs(
                                        tk,
                                        shots0,
                                        drones0,
                                    ));
                                }
                            },
                        }
                    },
                    crate::shot::Shots::Electricity => {
                        match find_drone(drones, e_enemy) {
                            Some(di) => {
                                let ghost dmg = shot_unit.shot.damage as int;
                                proof {
                                    assert(shot_unit_ok(shots0[si as int]));
                                    lemma_electric_damage_nonneg(tk, shots0, drones0[di as int].id);
                                    assert(drones0[di as int].id == e_enemy);
                                    assert forall|i: int|
                                        0 <= i < drones0.len() && i != di implies electric_damage(
                                        tk1,
                                        shots0,
                                        (#[trigger] drones0[i]).id,
                                    ) == electric_damage(tk, shots0, drones0[i].id) by {
                                        assert(drones0[i].id != drones0[di as int].id);
                                    }
                                    assert(electric_damage(tk1, shots0, drones0[di as int].id)
                                        == electric_damage(tk, shots0, drones0[di as int].id)
                                        + dmg);
                                    assert(crate::collision::involves(
                                        contacts@[k as int],
                                        drones0[di as int].id,
                                    ));
                                }
                                damage_drone_at(drones, di, shot_unit.shot.damage);
                                proof {
                                    assert(bombs@ =~= bombs0 + armed_bombs(tk1, shots0, drones0));
                                }
                            },
                            None => {
                                proof {
                                    assert forall|q: int|
                                        0 <= q < drones0.len() implies (#[trigger] drones0[q]).id
                                        != e_enemy by {
                                        assert(drones@[q].id == drones0[q].id);
                                    }
                                    assert(armed_bombs(tk1, shots0, drones0) =~= armed_bombs(
                                        tk,
                                        shots0,
                                        drones0,
                                    ));
                                }
                            },
                        }
                    },
                }
            },
            None => {
                proof {
                    lemma_first_shot_absent(shots0, e_shot);
                    assert(armed_bombs(tk1, shots0, drones0) =~= armed_bombs(tk, shots0, drones0));
                }
            },
        }
        proof {
            // A drone this contact does not name keeps its damage total.
            assert forall|i: int|
                0 <= i < drones0.len() && enemy_side(contacts@[k as int]) != (
            #[trigger] drones0[i]).id implies electric_damage(tk1, shots0, drones0[i].id)
                == electric_damage(tk, shots0, drones0[i].id) by {}
        }
        k = k + 1;
    }
    proof {
        assert(contacts@.take(n as int) =~= contacts@);
    }

    // The contacted projectiles despawn, all at once, after consumption.
    let ghost pred = (|s: ShotUnit| !names_shot(contacts@, s.id));
    let ns = shots.len();
    let mut kept: Vec<ShotUnit> = Vec::new();
    let mut i: usize = 0;
    proof {
        reveal(Seq::filter);
        assert(shots0.take(0int).filter(pred) =~= Seq::<ShotUnit>::empty());
    }
    while i < ns
        invariant
            shots@ == shots0,
            ns == shots0.len(),
            0 <= i <= ns,
            kept@ == shots0.take(i as int).filter(pred),
        decreases ns - i,
    {
        let s = shots[i];
        proof {
            reveal(Seq::filter);
            let t1 = shots0.take(i as int + 1);
            assert(t1.drop_last() =~= shots0.take(i as int));
            assert(t1.last() == shots0[i as int]);
            assert(t1.filter(pred) == if pred(shots0[i as int]) {
                shots0.take(i as int).filter(pred).push(shots0[i as int])
            } else {
                shots0.take(i as int).filter(pred)
            });
        }
        if !scan_names_shot(contacts, s.id) {
            kept.push(s);
        }
        i = i + 1;
    }
    proof {
        assert(shots0.take(ns as int) =~= shots0);
        lemma_filter_subset(shots0, pred);
        lemma_filter_distinct_shots(shots0, pred);
    }
    *shots = kept;
    proof {
        assert forall|j: int|
            0 <= j < shots@.len() implies shot_unit_ok(#[trigger] shots@[j]) && !names_shot(
            contacts@,
            shots@[j].id,
        ) by {
            assert(shots@.contains(shots@[j]));
            assert(shots0.contains(shots@[j]));
            let w = choose|w: int| 0 <= w < shots0.len() && shots0[w] == shots@[j];
            assert(shot_unit_ok(shots0[w]));
            assert(pred(shots@[j]));
        }
    }
}

} // verus!

verus! {

/// What target selection sees of the drones.
fn target_views(drones: &Vec<DroneUnit>) -> (r: Vec<crate::tower::TargetView>)
    ensures
        r@.len() == drones@.len(),
        forall|k: int|
            0 <= k < drones@.len() ==> #[trigger] r@[k] == (crate::tower::TargetView {
                pos: drones@[k].pos,
                advance: drones@[k].enemy.advance,
            }),
{
    let n = drones.len();
    let mut r: Vec<crate::tower::TargetView> = Vec::new();
    let mut i: usize = 0;
    while i < n
        invariant
            0 <= i <= n,
            n == drones@.len(),
            r@.len() == i,
            forall|k: int|
                0 <= k < i ==> #[trigger] r@[k] == (crate::tower::TargetView {
                    pos: drones@[k].pos,
                    advance: drones@[k].enemy.advance,
                }),
        decreases n - i,
    {
        let d = drones[i];
        r.push(crate::tower::TargetView { pos: d.pos, advance: d.enemy.advance });
        i = i + 1;
    }
    r
}

/// The ready effect tower's aura reaches the drone.
#[verifier::opaque]
pub open spec fn scrambler_covers(t: TowerUnit, d: DroneUnit) -> bool {
    &&& t.just_fired is None
    &&& t.tower.model is Scrambler
    &&& crate::tower::in_range_spec(
        t.pos,
        d.pos,
        crate::tower_stats::range_spec(t.tower.model, t.tower.rank),
    )
}

/// What the firing pass may do to a drone's slow, judged against the first
/// `upto` towers: covered by some ready effect tower among them, the drone
/// carries a fresh full-duration slow at such a tower's factor; covered by
/// none, its slow is untouched.
pub open spec fn slow_state_ok(
    towers0: Seq<TowerUnit>,
    upto: int,
    d0: DroneUnit,
    d1: DroneUnit,
    now: u64,
) -> bool {
    &&& ((exists|t: int| 0 <= t < upto && scrambler_covers(#[trigger] towers0[t], d0))
        ==> exists|t: int|
        0 <= t < upto && scrambler_covers(#[trigger] towers0[t], d0) && d1.slow == Some(
            Slow {
                factor: crate::tower_stats::slow_factor_spec(towers0[t].tower.rank),
                t_final: (now + SLOW_DOWN_DELAY) as u64,
            },
        ))
    &&& ((forall|t: int| 0 <= t < upto ==> !scrambler_covers(#[trigger] towers0[t], d0))
        ==> d1.slow == d0.slow)
}

/// One step of the firing pass over a tower that is no ready effect tower
/// leaves every drone's slow state justified.
proof fn lemma_slow_step_other(
    towers0: Seq<TowerUnit>,
    i: int,
    d0: DroneUnit,
    d1: DroneUnit,
    now: u64,
)
    requires
        0 <= i < towers0.len(),
        !(towers0[i].just_fired is None && towers0[i].tower.model is Scrambler),
        slow_state_ok(towers0, i, d0, d1, now),
    ensures
        slow_state_ok(towers0, i + 1, d0, d1, now),
{
    reveal(scrambler_covers);
    assert(!scrambler_covers(towers0[i], d0));
    if exists|t: int| 0 <= t < i + 1 && scrambler_covers(#[trigger] towers0[t], d0) {
        let t = choose|t: int| 0 <= t < i + 1 && scrambler_covers(#[trigger] towers0[t], d0);
        assert(0 <= t < i && scrambler_covers(towers0[t], d0));
    }
}

/// One step of the firing pass over a ready effect tower: drones in its range
/// take its slow; the rest keep their justified state.
proof fn lemma_slow_step_scrambler(
    towers0: Seq<TowerUnit>,
    i: int,
    d0: DroneUnit,
    d_pre: DroneUnit,
    d1: DroneUnit,
    now: u64,
)
    requires
        0 <= i < towers0.len(),
        towers0[i].just_fired is None,
        towers0[i].tower.model is Scrambler,
        slow_state_ok(towers0, i, d0, d_pre, now),
        d_pre.pos == d0.pos,
        d1.slow == (if crate::tower::in_range_spec(
            towers0[i].pos,
            d_pre.pos,
            crate::tower_stats::range_spec(towers0[i].tower.model, towers0[i].tower.rank),
        ) {
            Some(
                Slow {
                    factor: crate::tower_stats::slow_factor_spec(towers0[i].tower.rank),
                    t_final: (now + SLOW_DOWN_DELAY) as u64,
                },
            )
        } else {
            d_pre.slow
        }),
    ensures
        slow_state_ok(towers0, i + 1, d0, d1, now),
{
    reveal(scrambler_covers);
    if crate::tower::in_range_spec(
        towers0[i].pos,
        d0.pos,
        crate::tower_stats::range_spec(towers0[i].tower.model, towers0[i].tower.rank),
    ) {
        assert(scrambler_covers(towers0[i], d0));
    } else {
        assert(!scrambler_covers(towers0[i], d0));
        if exists|t: int| 0 <= t < i + 1 && scrambler_covers(#[trigger] towers0[t], d0) {
            let t = choose|t: int| 0 <= t < i + 1 && scrambler_covers(#[trigger] towers0[t], d0);
            assert(0 <= t < i && scrambler_covers(towers0[t], d0));
        }
    }
}

/// The projectile is the one this tower fires at this target: spawned one
/// pixel above the tower, carrying the tower's damage, travelling its range
/// at the fixed shot speed, stopping one range-length out toward the target.
pub open spec fn shot_from_tower(s: ShotUnit, t: TowerUnit, target: Vec2i) -> bool {
    &&& s.start.x == t.pos.x
    &&& s.start.y == t.pos.y + 1_000
    &&& s.pos == s.start
    &&& s.shot.class == (match t.tower.model.get_shot_spec() {
        Some(c) => c,
        None => s.shot.class,
    })
    &&& s.shot.damage == crate::tower_stats::damage_spec(t.tower.model, t.tower.rank)
    &&& s.duration == crate::tower_stats::range_spec(t.tower.model, t.tower.rank) * 1_000
        / 120_000
    &&& shot_end_toward(s, target, crate::tower_stats::range_spec(t.tower.model, t.tower.rank))
}

/// The projectile was fired by some ready damage tower at the drone it
/// selects: one within range whose path advance no other in-range drone
/// exceeds.
#[verifier::opaque]
pub open spec fn fired_at_best_target(
    s: ShotUnit,
    towers: Seq<TowerUnit>,
    drones: Seq<DroneUnit>,
) -> bool {
    exists|t: int, q: int|
        {
            &&& 0 <= t < towers.len()
            &&& 0 <= q < drones.len()
            &&& (#[trigger] towers[t]).just_fired is None
            &&& !(towers[t].tower.model is Scrambler)
            &&& crate::tower::in_range_spec(
                towers[t].pos,
                (#[trigger] drones[q]).pos,
                crate::tower_stats::range_spec(towers[t].tower.model, towers[t].tower.rank),
            )
            &&& (forall|p: int|
                0 <= p < drones.len() && crate::tower::in_range_spec(
                    towers[t].pos,
                    (#[trigger] drones[p]).pos,
                    crate::tower_stats::range_spec(towers[t].tower.model, towers[t].tower.rank),
                ) ==> drones[p].enemy.advance <= drones[q].enemy.advance)
            &&& shot_from_tower(s, towers[t], drones[q].pos)
        }
}

/// The tower is ready and within range of at least one drone it can shoot.
pub open spec fn fires_shot(t: TowerUnit, drones: Seq<DroneUnit>) -> bool {
    &&& t.just_fired is None
    &&& !(t.tower.model is Scrambler)
    &&& exists|q: int|
        0 <= q < drones.len() && crate::tower::in_range_spec(
            t.pos,
            (#[trigger] drones[q]).pos,
            crate::tower_stats::range_spec(t.tower.model, t.tower.rank),
        )
}

/// How many towers fire a projectile this pass.
pub open spec fn count_firing(towers: Seq<TowerUnit>, drones: Seq<DroneUnit>) -> int
    decreases towers.len(),
{
    if towers.len() == 0 {
        0
    } else {
        count_firing(towers.drop_last(), drones) + if fires_shot(towers.last(), drones) {
            1int
        } else {
            0int
        }
    }
}

/// Tower firing pass. Every ready tower acts once and enters its cooldown
/// for its reload delay: a damage-dealing tower fires one projectile at the
/// drone furthest along the path within its range (none when none is in
/// range), and the effect-only tower refreshes the slow of every drone in
/// range. Cooling towers do nothing.
#[verifier::spinoff_prover]
pub fn tower_fire(
    towers: &mut Vec<TowerUnit>,
    drones: &mut Vec<DroneUnit>,
    shots: &mut Vec<ShotUnit>,
    next_id: &mut u64,
    now: u64,
)
    requires
        towers_ok(old(towers)@),
        drones_ok(old(drones)@),
        shots_ok(old(shots)@),
        now <= MAX_CLOCK,
        *old(next_id) + old(towers)@.len() <= u64::MAX,
    ensures
        towers_ok(final(towers)@),
        drones_ok(final(drones)@),
        shots_ok(final(shots)@),
        // Cooldowns: a tower that acted — fired a projectile, or pulsed its
        // aura — enters its reload cooldown; a ready damage tower that found
        // no target stays ready; a cooling tower keeps its state; no tower
        // moves or changes model or rank.
        final(towers)@.len() == old(towers)@.len(),
        forall|i: int|
            0 <= i < old(towers)@.len() ==> {
                let t0 = old(towers)@[i];
                let t1 = #[trigger] final(towers)@[i];
                &&& t1.tower == t0.tower
                &&& t1.pos == t0.pos
                &&& t1.just_fired == (if t0.just_fired is None && (t0.tower.model is Scrambler
                    || fires_shot(t0, old(drones)@)) {
                    Some(
                        JustFired {
                            t0: now,
                            delay: crate::tower_stats::reload_delay_spec(
                                t0.tower.model,
                                t0.tower.rank,
                            ),
                        },
                    )
                } else {
                    t0.just_fired
                })
            },
        // Drones: a drone covered by some ready effect tower receives or
        // refreshes a fresh full-duration slow at that tower's factor; one
        // covered by none keeps its slow; nothing else changes.
        final(drones)@.len() == old(drones)@.len(),
        forall|i: int|
            0 <= i < old(drones)@.len() ==> {
                let d0 = old(drones)@[i];
                let d1 = #[trigger] final(drones)@[i];
                &&& d1.id == d0.id
                &&& d1.enemy == d0.enemy
                &&& d1.hitbox == d0.hitbox
                &&& d1.pos == d0.pos
                &&& d1.package == d0.package
                &&& slow_state_ok(old(towers)@, old(towers)@.len() as int, d0, d1, now)
            },
        // Shots: the old ones stay; one new shot per ready tower with a drone
        // in its range; each is a well-formed single-hit projectile spawned
        // now, with a fresh identity.
        final(shots)@.len() == old(shots)@.len() + count_firing(old(towers)@, old(drones)@),
        old(shots)@.len() <= final(shots)@.len(),
        forall|k: int| 0 <= k < old(shots)@.len() ==> #[trigger] final(shots)@[k] == old(
            shots
        )@[k],
        forall|k: int|
            old(shots)@.len() <= k < final(shots)@.len() ==> {
                let s = #[trigger] final(shots)@[k];
                &&& shot_unit_ok(s)
                &&& s.t0 == now
                &&& s.hitbox.single_hit
                &&& s.hitbox.body_type is ShipShot
                &&& s.id == *old(next_id) + (k - old(shots)@.len())
                &&& fired_at_best_target(s, old(towers)@, old(drones)@)
            },
        *final(next_id) == *old(next_id) + (final(shots)@.len() - old(shots)@.len()),
{
    let ghost towers0 = towers@;
    let ghost drones0 = drones@;
    let ghost shots0 = shots@;
    let ghost id0 = *next_id;
    let n = towers.len();
    let mut updated: Vec<TowerUnit> = Vec::new();
    let mut i: usize = 0;
    while i < n
        invariant
            towers@ == towers0,
            towers_ok(towers0),
            drones_ok(drones@),
            shots_ok(shots@),
            now <= MAX_CLOCK,
            n == towers0.len(),
            id0 + towers0.len() <= u64::MAX,
            0 <= i <= n,
            updated@.len() == i,
            forall|j: int|
                0 <= j < i ==> {
                    let t0 = towers0[j];
                    let t1 = #[trigger] updated@[j];
                    &&& t1.tower == t0.tower
                    &&& t1.pos == t0.pos
                    &&& t1.just_fired == (if t0.just_fired is None && (t0.tower.model is Scrambler
                        || fires_shot(t0, drones0)) {
                        Some(
                            JustFired {
                                t0: now,
                                delay: crate::tower_stats::reload_delay_spec(
                                    t0.tower.model,
                                    t0.tower.rank,
                                ),
                            },
                        )
                    } else {
                        t0.just_fired
                    })
                    &&& tower_unit_ok(t1)
                },
            drones@.len() == drones0.len(),
            forall|q: int|
                0 <= q < drones0.len() ==> {
                    let d0 = drones0[q];
                    let d1 = #[trigger] drones@[q];
                    &&& d1.id == d0.id
                    &&& d1.enemy == d0.enemy
                    &&& d1.hitbox == d0.hitbox
                    &&& d1.pos == d0.pos
                    &&& d1.package == d0.package
                    &&& slow_state_ok(towers0, i as int, d0, d1, now)
                },
            shots@.len() == shots0.len() + count_firing(towers0.take(i as int), drones0),
            shots0.len() <= shots@.len(),
            forall|k: int| 0 <= k < shots0.len() ==> #[trigger] shots@[k] == shots0[k],
            forall|k: int|
                shots0.len() <= k < shots@.len() ==> {
                    let s = #[trigger] shots@[k];
                    &&& shot_unit_ok(s)
                    &&& s.t0 == now
                    &&& s.hitbox.single_hit
                    &&& s.hitbox.body_type is ShipShot
                    &&& s.id == id0 + (k - shots0.len())
                    &&& fired_at_best_target(s, towers0, drones0)
                },
            *next_id == id0 + (shots@.len() - shots0.len()),
            shots@.len() - shots0.len() <= i,
        decreases n - i,
    {
        let unit = towers[i];
        if unit.just_fired.is_none() {
            match unit.tower.model {
                Towers::Lightning | Towers::PaintBomb => {
                    let targets = target_views(drones);
                    let range = unit.tower.range();
                    let mut fired = false;
                    match crate::tower::pick_target(&targets, unit.pos, range) {
                        Some(ti) => {
                            let target_pos = drones[ti].pos;
                            let s = shoot(&unit.tower, unit.pos, target_pos, *next_id, now);
                            shots.push(s);
                            *next_id = *next_id + 1;
                            fired = true;
                            proof {
                                assert(crate::tower::in_range_spec(
                                    unit.pos,
                                    drones0[ti as int].pos,
                                    crate::tower_stats::range_spec(
                                        unit.tower.model,
                                        unit.tower.rank,
                                    ),
                                ));
                                assert(fires_shot(towers0[i as int], drones0));
                                assert forall|p: int|
                                    0 <= p < drones0.len() && crate::tower::in_range_spec(
                                        towers0[i as int].pos,
                                        (#[trigger] drones0[p]).pos,
                                        crate::tower_stats::range_spec(
                                            unit.tower.model,
                                            unit.tower.rank,
                                        ),
                                    ) implies drones0[p].enemy.advance <= drones0[
                                    ti as int
                                ].enemy.advance by {
                                    assert(targets@[p].pos == drones0[p].pos);
                                    assert(targets@[p].advance == drones0[p].enemy.advance);
                                }
                                assert(shot_from_tower(
                                    s,
                                    towers0[i as int],
                                    drones0[ti as int].pos,
                                ));
                                assert(fired_at_best_target(s, towers0, drones0)) by {
                                    reveal(fired_at_best_target);
                                }
                            }
                        },
                        None => {
                            proof {
                                assert forall|q: int|
                                    0 <= q < drones0.len() implies !crate::tower::in_range_spec(
                                    unit.pos,
                                    (#[trigger] drones0[q]).pos,
                                    crate::tower_stats::range_spec(
                                        unit.tower.model,
                                        unit.tower.rank,
                                    ),
                                ) by {
                                    assert(targets@[q].pos == drones0[q].pos);
                                }
                                assert(!fires_shot(towers0[i as int], drones0));
                            }
                        },
                    }
                    proof {
                        assert forall|q: int| 0 <= q < drones0.len() implies slow_state_ok(
                            towers0,
                            i as int + 1,
                            drones0[q],
                            #[trigger] drones@[q],
                            now,
                        ) by {
                            lemma_slow_step_other(
                                towers0,
                                i as int,
                                drones0[q],
                                drones@[q],
                                now,
                            );
                        }
                    }
                    // A damage tower cools only on a successful fire: with no
                    // target in range it stays ready.
                    if fired {
                        let delay = unit.tower.reload_delay();
                        updated.push(
                            TowerUnit {
                                tower: unit.tower,
                                pos: unit.pos,
                                just_fired: Some(JustFired::new(now, delay)),
                            },
                        );
                    } else {
                        updated.push(unit);
                    }
                },
                Towers::Scrambler => {
                    let factor = unit.tower.slow_factor();
                    let range = unit.tower.range();
                    let ghost drones_pre = drones@;
                    apply_slow(drones, unit.pos, range, factor, now);
                    proof {
                        assert(crate::tower_stats::is_slow_factor(factor));
                        assert(!fires_shot(towers0[i as int], drones0));
                        assert forall|q: int| 0 <= q < drones0.len() implies slow_state_ok(
                            towers0,
                            i as int + 1,
                            drones0[q],
                            #[trigger] drones@[q],
                            now,
                        ) by {
                            lemma_slow_step_scrambler(
                                towers0,
                                i as int,
                                drones0[q],
                                drones_pre[q],
                                drones@[q],
                                now,
                            );
                        }
                    }
                    let delay = unit.tower.reload_delay();
                    updated.push(
                        TowerUnit {
                            tower: unit.tower,
                            pos: unit.pos,
                            just_fired: Some(JustFired::new(now, delay)),
                        },
                    );
                },
            }
        } else {
            updated.push(unit);
            proof {
                assert(!fires_shot(towers0[i as int], drones0));
                assert forall|q: int| 0 <= q < drones0.len() implies slow_state_ok(
                    towers0,
                    i as int + 1,
                    drones0[q],
                    #[trigger] drones@[q],
                    now,
                ) by {
                    lemma_slow_step_other(towers0, i as int, drones0[q], drones@[q], now);
                }
            }
        }
        proof {
            let t1 = towers0.take(i as int + 1);
            assert(t1.drop_last() =~= towers0.take(i as int));
            assert(t1.last() == towers0[i as int]);
            assert(count_firing(t1, drones0) == count_firing(towers0.take(i as int), drones0)
                + if fires_shot(towers0[i as int], drones0) {
                1int
            } else {
                0int
            });
        }
        i = i + 1;
    }
    *towers = updated;
    proof {
        assert(towers0.take(towers0.len() as int) =~= towers0);
    }
}

/// Total damage the armed bombs deal at one point: the sum of the damage of
/// every bomb whose blast reaches it.
pub open spec fn blast_damage(bombs: Seq<Bomb>, p: Vec2i) -> int
    decreases bombs.len(),
{
    if bombs.len() == 0 {
        0
    } else {
        blast_damage(bombs.drop_last(), p) + if crate::shot::in_blast(bombs.last(), p) {
            bombs.last().damages as int
        } else {
            0
        }
    }
}

pub open spec fn bombs_ok(bs: Seq<Bomb>) -> bool {
    forall|k: int|
        0 <= k < bs.len() ==> 0 <= (#[trigger] bs[k]).damages <= 1_000_000 && 0 <= bs[k].radius
            <= crate::path::MAX_COORD && crate::path::coord_ok(Vec2i { x: bs[k].x, y: bs[k].y })
}

proof fn lemma_blast_damage_bounds(bombs: Seq<Bomb>, p: Vec2i)
    requires
        bombs_ok(bombs),
    ensures
        0 <= blast_damage(bombs, p) <= bombs.len() * 1_000_000,
    decreases bombs.len(),
{
    if bombs.len() > 0 {
        lemma_blast_damage_bounds(bombs.drop_last(), p);
        assert(bombs.drop_last().len() == bombs.len() - 1);
    }
}

/// Area-damage resolution, applied exactly once at arming time: every armed
/// bomb deals its damage to every drone within its blast radius,
/// independently of individual contact volumes. The bombs themselves are
/// untouched here; `make_bomb_explode` retires them.
#[verifier::loop_isolation(false)]
pub fn bomb_exploding(bombs: &Vec<Bomb>, drones: &mut Vec<DroneUnit>)
    requires
        drones_ok(old(drones)@),
        bombs_ok(bombs@),
        bombs@.len() <= 1_000_000,
    ensures
        drones_ok(final(drones)@),
        final(drones)@.len() == old(drones)@.len(),
        forall|i: int|
            0 <= i < old(drones)@.len() ==> {
                let d0 = old(drones)@[i];
                let d1 = #[trigger] final(drones)@[i];
                &&& d1.id == d0.id
                &&& d1.enemy.class == d0.enemy.class
                &&& d1.enemy.advance == d0.enemy.advance
                &&& d1.enemy.stats.speed == d0.enemy.stats.speed
                &&& d1.hitbox == d0.hitbox
                &&& d1.pos == d0.pos
                &&& d1.slow == d0.slow
                &&& d1.package == d0.package
                &&& d1.enemy.stats.hp == (if blast_damage(bombs@, d0.pos) >= d0.enemy.stats.hp {
                    0int
                } else {
                    d0.enemy.stats.hp - blast_damage(bombs@, d0.pos)
                })
            },
{
    let ghost bombs0 = bombs@;
    let ghost drones0 = drones@;
    let nd = drones.len();
    let mut updated: Vec<DroneUnit> = Vec::new();
    let mut i: usize = 0;
    while i < nd
        invariant
            0 <= i <= nd,
            updated@.len() == i,
            forall|q: int|
                0 <= q < i ==> {
                    let d0 = drones0[q];
                    let d1 = #[trigger] updated@[q];
                    &&& d1.id == d0.id
                    &&& d1.enemy.class == d0.enemy.class
                    &&& d1.enemy.advance == d0.enemy.advance
                    &&& d1.enemy.stats.speed == d0.enemy.stats.speed
                    &&& d1.hitbox == d0.hitbox
                    &&& d1.pos == d0.pos
                    &&& d1.slow == d0.slow
                    &&& d1.package == d0.package
                    &&& d1.enemy.stats.hp == (if blast_damage(bombs0, d0.pos)
                        >= d0.enemy.stats.hp {
                        0int
                    } else {
                        d0.enemy.stats.hp - blast_damage(bombs0, d0.pos)
                    })
                    &&& drone_unit_ok(d1)
                },
        decreases nd - i,
    {
        let mut d = drones[i];
        let nb = bombs.len();
        let mut k: usize = 0;
        proof {
            assert(bombs0.take(0int).len() == 0);
        }
        while k < nb
            invariant
                0 <= k <= nb,
                d.id == drones0[i as int].id,
                d.enemy.class == drones0[i as int].enemy.class,
                d.enemy.advance == drones0[i as int].enemy.advance,
                d.enemy.stats.speed == drones0[i as int].enemy.stats.speed,
                d.hitbox == drones0[i as int].hitbox,
                d.pos == drones0[i as int].pos,
                d.slow == drones0[i as int].slow,
                d.package == drones0[i as int].package,
                d.enemy.stats.hp == (if blast_damage(bombs0.take(k as int), d.pos)
                    >= drones0[i as int].enemy.stats.hp {
                    0int
                } else {
                    drones0[i as int].enemy.stats.hp - blast_damage(bombs0.take(k as int), d.pos)
                }),
                d.enemy.wf(),
            decreases nb - k,
        {
            let bomb = bombs[k];
            proof {
                let t1 = bombs0.take(k as int + 1);
                assert(t1.drop_last() =~= bombs0.take(k as int));
                assert(t1.last() == bombs0[k as int]);
                lemma_blast_damage_bounds(Seq::new(t1.len(), |q: int| bombs0[q]), d.pos);
                assert(Seq::new(t1.len(), |q: int| bombs0[q]) =~= t1);
            }
            if bomb.reaches(d.pos) {
                apply_damage(&mut d.enemy, bomb.damages);
            }
            k = k + 1;
        }
        proof {
            assert(bombs0.take(nb as int) =~= bombs0);
        }
        updated.push(d);
        i = i + 1;
    }
    *drones = updated;
}

/// After its area damage resolved, a bomb transitions into a timed
/// visual-only explosion; the armed list empties so the damage is never
/// repeated during the explosion's visual lifetime.
#[verifier::loop_isolation(false)]
pub fn make_bomb_explode(bombs: &mut Vec<Bomb>, exploding: &mut Vec<Explosion>, now: u64)
    requires
        now <= MAX_CLOCK,
    ensures
        final(bombs)@.len() == 0,
        final(exploding)@.len() == old(exploding)@.len() + old(bombs)@.len(),
        forall|k: int| 0 <= k < old(exploding)@.len() ==> #[trigger] final(exploding)@[k] == old(
            exploding
        )@[k],
        forall|k: int|
            0 <= k < old(bombs)@.len() ==> #[trigger] final(exploding)@[old(exploding)@.len() + k]
                == (Explosion { bomb: old(bombs)@[k], until: (now + BOMB_VISUAL_MS) as u64 }),
{
    let ghost bombs0 = bombs@;
    let nb = bombs.len();
    let mut k: usize = 0;
    while k < nb
        invariant
            0 <= k <= nb,
            bombs@ == bombs0,
            nb == bombs0.len(),
            exploding@.len() == old(exploding)@.len() + k,
            forall|q: int| 0 <= q < old(exploding)@.len() ==> #[trigger] exploding@[q] == old(
                exploding
            )@[q],
            forall|q: int|
                0 <= q < k ==> #[trigger] exploding@[old(exploding)@.len() + q] == (Explosion {
                    bomb: bombs0[q],
                    until: (now + BOMB_VISUAL_MS) as u64,
                }),
        decreases nb - k,
    {
        let bomb = bombs[k];
        exploding.push(Explosion { bomb, until: now + BOMB_VISUAL_MS });
        k = k + 1;
    }
    *bombs = Vec::new();
}

} // verus!

verus! {

/// Where a detached package lands: the dying drone's path position doubled
/// into tiles and converted to world space, centered on the road cell; a
/// position off the world (no real path reaches one) falls back to the
/// drone's sprite position.
pub open spec fn package_drop_pos(pts: Seq<Vec2i>, advance: i64, fallback: Vec2i) -> Vec2i {
    match crate::path::position_spec(pts, advance as int) {
        Some(w) => {
            let px = 16 * w.0 + 4_000;
            let py = 16 * w.1 + 6 * 8_000 + 4_000;
            if -1_000_000 <= px <= 1_000_000 && -1_000_000 <= py <= 1_000_000 {
                Vec2i { x: px as i64, y: py as i64 }
            } else {
                fallback
            }
        },
        None => fallback,
    }
}

/// The packages a death pass detaches, in roster order: every dead drone
/// carrying a package drops one of that same kind, fallen onto the road at
/// the drone's path position.
pub open spec fn dropped_loot(s: Seq<DroneUnit>, pts: Seq<Vec2i>) -> Seq<PackageUnit>
    decreases s.len(),
{
    if s.len() == 0 {
        Seq::empty()
    } else {
        let rest = dropped_loot(s.drop_last(), pts);
        let d = s.last();
        if d.enemy.stats.hp == 0 && d.package is Some {
            rest.push(
                PackageUnit {
                    package: d.package->Some_0,
                    pos: package_drop_pos(pts, d.enemy.advance, d.pos),
                },
            )
        } else {
            rest
        }
    }
}

/// Everything a member of the filtered sequence was already a member of.
proof fn lemma_filter_subset<A>(s: Seq<A>, pred: spec_fn(A) -> bool)
    ensures
        forall|x: A| #[trigger] s.filter(pred).contains(x) ==> s.contains(x),
    decreases s.len(),
{
    reveal(Seq::filter);
    if s.len() > 0 {
        lemma_filter_subset(s.drop_last(), pred);
        assert forall|x: A| #[trigger] s.filter(pred).contains(x) implies s.contains(x) by {
            if x == s.last() {
                assert(s[s.len() - 1] == x);
            } else {
                let f = s.filter(pred);
                let k = choose|k: int| 0 <= k < f.len() && f[k] == x;
                assert(s.drop_last().filter(pred).contains(x));
                let q = choose|q: int|
                    0 <= q < s.drop_last().len() && s.drop_last()[q] == x;
                assert(s[q] == x);
            }
        }
    }
}

/// Death transition: the instant a drone's health reaches zero it leaves the
/// live roster (it can no longer collide or be targeted), enters the dying
/// state for the length of the death animation, increments the killed tally
/// exactly once — at transition time, not at despawn — and detaches its
/// package, which falls onto the road at the drone's current path position.
#[verifier::loop_isolation(false)]
pub fn kill_drone(
    drones: &mut Vec<DroneUnit>,
    dying: &mut Vec<DyingDrone>,
    packages: &mut Vec<PackageUnit>,
    stats: &mut DronesStats,
    path: &Path,
    now: u64,
)
    requires
        drones_ok(old(drones)@),
        path.wf(),
        now <= MAX_CLOCK,
        old(stats).killed + old(drones)@.len() <= u32::MAX,
    ensures
        drones_ok(final(drones)@),
        final(drones)@ == old(drones)@.filter(|d: DroneUnit| d.enemy.stats.hp > 0),
        final(stats).killed == old(stats).killed + old(drones)@.len() - final(drones)@.len(),
        final(stats).survived == old(stats).survived,
        final(stats).spawned == old(stats).spawned,
        old(dying)@.len() <= final(dying)@.len(),
        final(dying)@.len() - old(dying)@.len() == old(drones)@.len() - final(drones)@.len(),
        forall|k: int| 0 <= k < old(dying)@.len() ==> #[trigger] final(dying)@[k] == old(
            dying
        )@[k],
        forall|k: int|
            old(dying)@.len() <= k < final(dying)@.len() ==> (#[trigger] final(dying)@[k]).until
                == now + DRONE_DEATH_MS,
        old(packages)@.len() <= final(packages)@.len(),
        forall|k: int| 0 <= k < old(packages)@.len() ==> #[trigger] final(packages)@[k] == old(
            packages
        )@[k],
        forall|k: int|
            old(packages)@.len() <= k < final(packages)@.len() ==> crate::path::coord_ok(
                (#[trigger] final(packages)@[k]).pos,
            ),
        final(packages)@ == old(packages)@ + dropped_loot(old(drones)@, path.points@),
{
    let ghost before = drones@;
    let ghost pred = (|d: DroneUnit| d.enemy.stats.hp > 0);
    let n = drones.len();
    let mut kept: Vec<DroneUnit> = Vec::new();
    let mut dead: u32 = 0;
    let mut i: usize = 0;
    proof {
        reveal(Seq::filter);
        assert(before.take(0int).filter(pred) =~= Seq::<DroneUnit>::empty());
        assert(packages@ =~= old(packages)@ + dropped_loot(before.take(0int), path.points@));
    }
    while i < n
        invariant
            0 <= i <= n,
            kept@ == before.take(i as int).filter(pred),
            dead == i - kept@.len(),
            kept@.len() <= i,
            dying@.len() == old(dying)@.len() + dead,
            forall|k: int| 0 <= k < old(dying)@.len() ==> #[trigger] dying@[k] == old(dying)@[k],
            forall|k: int|
                old(dying)@.len() <= k < dying@.len() ==> (#[trigger] dying@[k]).until == now
                    + DRONE_DEATH_MS,
            old(packages)@.len() <= packages@.len(),
            forall|k: int| 0 <= k < old(packages)@.len() ==> #[trigger] packages@[k] == old(
                packages
            )@[k],
            forall|k: int|
                old(packages)@.len() <= k < packages@.len() ==> crate::path::coord_ok(
                    (#[trigger] packages@[k]).pos,
                ),
            packages@ == old(packages)@ + dropped_loot(before.take(i as int), path.points@),
        decreases n - i,
    {
        let d = drones[i];
        proof {
            reveal(Seq::filter);
            let t1 = before.take(i as int + 1);
            assert(t1.drop_last() =~= before.take(i as int));
            assert(t1.last() == before[i as int]);
            assert(t1.filter(pred) == if pred(before[i as int]) {
                before.take(i as int).filter(pred).push(before[i as int])
            } else {
                before.take(i as int).filter(pred)
            });
            assert(dropped_loot(t1, path.points@) == if before[i as int].enemy.stats.hp == 0
                && before[i as int].package is Some {
                dropped_loot(before.take(i as int), path.points@).push(
                    PackageUnit {
                        package: before[i as int].package->Some_0,
                        pos: package_drop_pos(
                            path.points@,
                            before[i as int].enemy.advance,
                            before[i as int].pos,
                        ),
                    },
                )
            } else {
                dropped_loot(before.take(i as int), path.points@)
            });
        }
        if d.enemy.stats.hp > 0 {
            kept.push(d);
        } else {
            // The death transition happens here, exactly once per drone.
            dead = dead + 1;
            dying.push(DyingDrone { id: d.id, until: now + DRONE_DEATH_MS });
            if let Some(package) = d.package {
                // Detach the loot and let it fall onto the road at the
                // drone's current path position.
                proof {
                    assert(drone_unit_ok(before[i as int]));
                }
                if let Some(progress) = path.pos(d.enemy.advance) {
                    let px = 16 * progress.x + 4_000;
                    let py = 16 * progress.y + 6 * 8_000 + 4_000;
                    let pos: Vec2i = if -1_000_000 <= px && px <= 1_000_000 && -1_000_000 <= py
                        && py <= 1_000_000 {
                        Vec2i { x: px, y: py }
                    } else {
                        d.pos
                    };
                    proof {
                        assert(pos == package_drop_pos(
                            path.points@,
                            d.enemy.advance,
                            d.pos,
                        ));
                    }
                    packages.push(PackageUnit { package, pos });
                }
            }
        }
        i = i + 1;
    }
    proof {
        assert(before.take(n as int) =~= before);
    }
    *drones = kept;
    stats.killed = stats.killed + dead;
    proof {
        lemma_filter_subset(before, pred);
        assert forall|q: int|
            0 <= q < drones@.len() implies drone_unit_ok(#[trigger] drones@[q]) by {
            assert(drones@.contains(drones@[q]));
            assert(before.contains(drones@[q]));
            let w = choose|w: int| 0 <= w < before.len() && before[w] == drones@[q];
            assert(drone_unit_ok(before[w]));
        }
    }
}

/// The index of the first tower standing on the cell.
fn find_tower_at(towers: &Vec<TowerUnit>, x: usize, y: usize) -> (r: Option<usize>)
    ensures
        match r {
            Some(i) => i < towers@.len() && towers@[i as int].tower.x == x && towers@[
                i as int
            ].tower.y == y && (forall|j: int|
                0 <= j < i ==> !((#[trigger] towers@[j]).tower.x == x && towers@[j].tower.y
                    == y)),
            None => forall|j: int|
                0 <= j < towers@.len() ==> !((#[trigger] towers@[j]).tower.x == x
                    && towers@[j].tower.y == y),
        },
{
    let n = towers.len();
    let mut i: usize = 0;
    while i < n
        invariant
            0 <= i <= n,
            n == towers@.len(),
            forall|j: int|
                0 <= j < i ==> !((#[trigger] towers@[j]).tower.x == x && towers@[j].tower.y
                    == y),
        decreases n - i,
    {
        let t = towers[i];
        if t.tower.x == x && t.tower.y == y {
            return Some(i);
        }
        i = i + 1;
    }
    None
}

/// Places a tower of the model on a grid cell. The placement succeeds
/// exactly when the cell is an unoccupied buildable cell and the balance
/// covers the model's cost; otherwise nothing changes — in particular, a
/// placement that would overdraw is rejected with the balance unchanged. On
/// success the cost is spent, the cell becomes occupied, and the fresh
/// rank-one tower starts its construction cooldown.
pub fn place_tower(
    towers: &mut Vec<TowerUnit>,
    grid: &mut Grid,
    money: &mut Money,
    model: Towers,
    x: usize,
    y: usize,
    now: u64,
) -> (placed: bool)
    requires
        old(grid).elements@.len() == crate::grid::GRID_ROWS,
        forall|y0: int|
            0 <= y0 < crate::grid::GRID_ROWS ==> (#[trigger] old(grid).elements@[y0])@.len()
                == crate::grid::GRID_COLS,
        now <= MAX_CLOCK,
    ensures
        placed <==> (x < GRID_CELLS_X && y < GRID_CELLS_Y && x < crate::grid::GRID_COLS && y
            < crate::grid::GRID_ROWS && old(grid).elements@[y as int]@[x as int] is Rock && !old(
            grid,
        ).occupied_spec(x, y) && old(money).0 >= model.get_cost_spec()),
        placed ==> {
            &&& final(money).0 == old(money).0 - model.get_cost_spec()
            &&& final(grid).towers@ == old(grid).towers@.push((x, y))
            &&& final(grid).elements == old(grid).elements
            &&& final(towers)@ == old(towers)@.push(
                TowerUnit {
                    tower: Tower { model, rank: 1, x, y },
                    pos: final(towers)@.last().pos,
                    just_fired: Some(JustFired { t0: now, delay: 2_000 }),
                },
            )
            &&& final(towers)@.last().pos.x == 16_000 * x + (16_000 - crate::sprites::TILE_PX
                * model.block_size().0) / 2
            &&& final(towers)@.last().pos.y == 16_000 * y + 6 * 8_000 + 4_000
        },
        !placed ==> {
            &&& *final(money) == *old(money)
            &&& final(grid).towers@ == old(grid).towers@
            &&& final(grid).elements == old(grid).elements
            &&& final(towers)@ == old(towers)@
        },
{
    if x >= GRID_CELLS_X || y >= GRID_CELLS_Y {
        return false;
    }
    if !grid.buildable(x, y) {
        return false;
    }
    let cost = model.get_cost();
    if !money.try_spend(cost as u32) {
        return false;
    }
    grid.occupy(x, y);
    let tower = model.instantiate(x, y);
    let pos = grid_to_tower_pos(x, y, model);
    let delay = model.initial_delay();
    towers.push(TowerUnit { tower, pos, just_fired: Some(JustFired::new(now, delay)) });
    true
}

/// Sells the tower on a cell, in sell mode only: the tower is removed, its
/// cell freed, a rank-dependent fraction of its cost refunded, and the
/// cursor returns to its default state. Selling an empty cell is silently
/// rejected, with no state change.
pub fn sell_tower(
    towers: &mut Vec<TowerUnit>,
    grid: &mut Grid,
    money: &mut Money,
    cursor: &mut CursorState,
    x: usize,
    y: usize,
) -> (sold: bool)
    ensures
        sold <==> (*old(cursor) is Sell && exists|i: int|
            0 <= i < old(towers)@.len() && (#[trigger] old(towers)@[i]).tower.x == x && old(
                towers
            )@[i].tower.y == y),
        sold ==> exists|i: int|
            0 <= i < old(towers)@.len() && (#[trigger] old(towers)@[i]).tower.x == x && old(
                towers
            )@[i].tower.y == y && final(towers)@ == old(towers)@.remove(i) && final(money).0 == (
            if old(money).0 + old(towers)@[i].tower.sell_price_spec() <= u32::MAX {
                old(money).0 + old(towers)@[i].tower.sell_price_spec()
            } else {
                u32::MAX as int
            }) && *final(cursor) == CursorState::Select,
        !sold ==> {
            &&& final(towers)@ == old(towers)@
            &&& *final(money) == *old(money)
            &&& *final(cursor) == *old(cursor)
            &&& final(grid).towers@ == old(grid).towers@
        },
        sold ==> *old(cursor) is Sell && (forall|c: (usize, usize)|
            #[trigger] final(grid).towers@.contains(c) <==> old(grid).towers@.contains(c) && c
                != (x, y)),
        final(grid).elements == old(grid).elements,
        !(*old(cursor) is Sell) ==> !sold,
{
    match cursor {
        CursorState::Sell => {},
        _ => {
            return false;
        },
    }
    match find_tower_at(towers, x, y) {
        Some(i) => {
            let unit = towers.remove(i);
            grid.free(x, y);
            money.gain(unit.tower.sell_price() as u32);
            *cursor = CursorState::Select;
            proof {
                assert(final(towers)@ =~= old(towers)@.remove(i as int));
            }
            true
        },
        None => false,
    }
}

/// Upgrades the tower on a cell, in upgrade mode only: the rank rises by one
/// on payment of the upgrade cost. An empty cell, a tower already at the top
/// rank, or an insufficient balance is silently rejected, with no state
/// change — an upgrade that would overdraw leaves the balance unchanged.
pub fn upgrade_tower(
    towers: &mut Vec<TowerUnit>,
    money: &mut Money,
    cursor: &mut CursorState,
    x: usize,
    y: usize,
) -> (upgraded: bool)
    requires
        towers_ok(old(towers)@),
    ensures
        towers_ok(final(towers)@),
        upgraded <==> (*old(cursor) is Upgrade && exists|i: int|
            0 <= i < old(towers)@.len() && (#[trigger] old(towers)@[i]).tower.x == x && old(
                towers
            )@[i].tower.y == y && (forall|j: int|
                0 <= j < i ==> !((#[trigger] old(towers)@[j]).tower.x == x && old(
                    towers
                )@[j].tower.y == y)) && (old(towers)@[i].tower.upgrade_cost_spec() matches Some(
                cost,
            ) && old(money).0 >= cost)),
        upgraded ==> exists|i: int|
            0 <= i < old(towers)@.len() && (#[trigger] old(towers)@[i]).tower.x == x && old(
                towers
            )@[i].tower.y == y && (old(towers)@[i].tower.upgrade_cost_spec() matches Some(cost)
                && old(money).0 >= cost && final(money).0 == old(money).0 - cost) && final(
                towers
            )@ == old(towers)@.update(
                i,
                TowerUnit {
                    tower: Tower {
                        rank: (old(towers)@[i].tower.rank + 1) as u8,
                        ..old(towers)@[i].tower
                    },
                    ..old(towers)@[i]
                },
            ) && *final(cursor) == CursorState::Select,
        !upgraded ==> {
            &&& final(towers)@ == old(towers)@
            &&& *final(money) == *old(money)
            &&& *final(cursor) == *old(cursor)
        },
        !(*old(cursor) is Upgrade) ==> !upgraded,
{
    match cursor {
        CursorState::Upgrade => {},
        _ => {
            return false;
        },
    }
    match find_tower_at(towers, x, y) {
        Some(i) => {
            let unit = towers[i];
            match unit.tower.upgrade_cost() {
                Some(cost) => {
                    if money.try_spend(cost as u32) {
                        let upgraded_unit = TowerUnit {
                            tower: Tower { rank: unit.tower.rank + 1, ..unit.tower },
                            ..unit
                        };
                        let _ = towers.remove(i);
                        towers.insert(i, upgraded_unit);
                        *cursor = CursorState::Select;
                        proof {
                            assert(final(towers)@ =~= old(towers)@.update(
                                i as int,
                                upgraded_unit,
                            ));
                        }
                        true
                    } else {
                        false
                    }
                },
                None => false,
            }
        },
        None => false,
    }
}

/// Collects one dropped package, applying its effect exactly once and
/// removing it: in sell mode a fixed payout regardless of kind; otherwise a
/// common or money package adds currency, a cursed one subtracts (floored at
/// zero), and a rare one triggers an area-damage charge at the collection
/// point instead.
pub fn collect_package(
    packages: &mut Vec<PackageUnit>,
    money: &mut Money,
    bombs: &mut Vec<Bomb>,
    sell_mode: bool,
    idx: usize,
) -> (collected: PackageUnit)
    requires
        idx < old(packages)@.len(),
    ensures
        collected == old(packages)@[idx as int],
        final(packages)@ == old(packages)@.remove(idx as int),
        ({
            let kind = old(packages)@[idx as int].package.kind;
            let pos = old(packages)@[idx as int].pos;
            if sell_mode {
                &&& final(money).0 == (if old(money).0 + MONEY_SELL <= u32::MAX {
                    old(money).0 + MONEY_SELL
                } else {
                    u32::MAX as int
                })
                &&& final(bombs)@ == old(bombs)@
            } else {
                match kind {
                    PackageKind::Common => final(money).0 == (if old(money).0 + MONEY_SMALL
                        <= u32::MAX {
                        old(money).0 + MONEY_SMALL
                    } else {
                        u32::MAX as int
                    }) && final(bombs)@ == old(bombs)@,
                    PackageKind::Money => final(money).0 == (if old(money).0 + MONEY_BIG
                        <= u32::MAX {
                        old(money).0 + MONEY_BIG
                    } else {
                        u32::MAX as int
                    }) && final(bombs)@ == old(bombs)@,
                    PackageKind::Cursed => final(money).0 == (if old(money).0 >= MONEY_CURSE {
                        old(money).0 - MONEY_CURSE
                    } else {
                        0int
                    }) && final(bombs)@ == old(bombs)@,
                    PackageKind::Omega => *final(money) == *old(money) && final(bombs)@ == old(
                        bombs
                    )@.push(
                        Bomb { x: pos.x, y: pos.y, radius: OMEGA_RANGE, damages: OMEGA_DAMAGES },
                    ),
                }
            }
        }),
{
    let unit = packages.remove(idx);
    proof {
        assert(final(packages)@ =~= old(packages)@.remove(idx as int));
    }
    if sell_mode {
        money.gain(MONEY_SELL);
    } else {
        match unit.package.kind {
            PackageKind::Common => {
                money.gain(MONEY_SMALL);
            },
            PackageKind::Money => {
                money.gain(MONEY_BIG);
            },
            PackageKind::Cursed => {
                money.curse(MONEY_CURSE);
            },
            PackageKind::Omega => {
                spawn_bomb(Bomb::new(unit.pos, OMEGA_RANGE, OMEGA_DAMAGES), bombs);
            },
        }
    }
    unit
}

/// The point lies in the rectangle with the given bottom-left origin and
/// dimensions, edges included.
pub fn is_in(p: Vec2i, o: Vec2i, size: Vec2i) -> (r: bool)
    requires
        crate::path::coord_ok(p),
        crate::path::coord_ok(o),
        0 <= size.x <= crate::path::MAX_COORD,
        0 <= size.y <= crate::path::MAX_COORD,
    ensures
        r <==> (o.x <= p.x <= o.x + size.x && o.y <= p.y <= o.y + size.y),
{
    p.x >= o.x && p.x <= o.x + size.x && p.y >= o.y && p.y <= o.y + size.y
}

/// Arms one bomb: it joins the charges awaiting area-damage resolution.
pub fn spawn_bomb(bomb: Bomb, bombs: &mut Vec<Bomb>)
    ensures
        final(bombs)@ == old(bombs)@.push(bomb),
{
    bombs.push(bomb);
}

/// The battle counts as won when no drone escaped, or when at least one was
/// destroyed and no more than five escaped.
pub fn battle_won(stats: &DronesStats) -> (won: bool)
    ensures
        won <==> (stats.survived == 0 || (stats.killed > 0 && stats.survived <= 5)),
{
    if stats.survived == 0 {
        true
    } else if stats.killed == 0 {
        false
    } else {
        stats.survived <= 5
    }
}

/// A won battle on the frontier level unlocks the next one; nothing else
/// moves the unlock frontier.
pub fn update_progress(level_unlocked: &mut u8, current_level: u8, won: bool)
    requires
        *old(level_unlocked) < u8::MAX,
    ensures
        *final(level_unlocked) == if won && *old(level_unlocked) <= current_level {
            *old(level_unlocked) + 1
        } else {
            *old(level_unlocked) as int
        },
{
    if won && *level_unlocked <= current_level {
        *level_unlocked = *level_unlocked + 1;
    }
}

} // verus!

verus! {

/// Filtering a roster of distinct-identity drones keeps identities distinct.
proof fn lemma_filter_distinct_drones(s: Seq<DroneUnit>, pred: spec_fn(DroneUnit) -> bool)
    requires
        forall|i: int, j: int|
            0 <= i < j < s.len() ==> (#[trigger] s[i]).id != (#[trigger] s[j]).id,
    ensures
        forall|i: int, j: int|
            0 <= i < j < s.filter(pred).len() ==> (#[trigger] s.filter(pred)[i]).id != (
            #[trigger] s.filter(pred)[j]).id,
    decreases s.len(),
{
    reveal(Seq::filter);
    if s.len() > 0 {
        lemma_filter_distinct_drones(s.drop_last(), pred);
        lemma_filter_subset(s.drop_last(), pred);
        let f = s.filter(pred);
        let fd = s.drop_last().filter(pred);
        assert forall|i: int, j: int|
            0 <= i < j < f.len() implies (#[trigger] f[i]).id != (#[trigger] f[j]).id by {
            if pred(s.last()) && j == f.len() - 1 {
                assert(f[j] == s.last());
                assert(fd.contains(f[i])) by {
                    assert(fd[i] == f[i]);
                }
                assert(s.drop_last().contains(f[i]));
                let w = choose|w: int| 0 <= w < s.drop_last().len() && s.drop_last()[w] == f[i];
                assert(s[w] == f[i]);
                assert(s[w].id != s[s.len() - 1].id);
            } else {
                assert(f[i] == fd[i]);
                assert(f[j] == fd[j]);
            }
        }
    }
}

/// The whole state a battle mutates, owned by the tick driver.
pub struct BattleState {
    /// The shared clock, in milliseconds since battle start.
    pub now: u64,
    pub money: Money,
    pub stats: DronesStats,
    pub cursor: CursorState,
    pub path: Path,
    pub grid: Grid,
    pub waves: WaveIterator,
    /// The live drones; dying and escaped ones have already left.
    pub drones: Vec<DroneUnit>,
    pub dying: Vec<DyingDrone>,
    pub towers: Vec<TowerUnit>,
    pub shots: Vec<ShotUnit>,
    /// Bombs armed this tick, awaiting their area-damage resolution.
    pub bombs: Vec<Bomb>,
    pub exploding: Vec<Explosion>,
    pub packages: Vec<PackageUnit>,
    /// Identities of single-hit volumes that have registered their contact.
    pub consumed: Vec<u64>,
    /// The next fresh entity identity.
    pub next_id: u64,
}

impl BattleState {
    /// Death accounting: every spawned drone is destroyed, escaped, or still
    /// alive, and the tallies move only at the corresponding transitions.
    pub open spec fn accounting_ok(&self) -> bool {
        self.stats.spawned == self.stats.killed + self.stats.survived + self.drones@.len()
    }

    /// Entity identities are fresh and unambiguous.
    pub open spec fn ids_ok(&self) -> bool {
        &&& forall|i: int| 0 <= i < self.drones@.len() ==> (#[trigger] self.drones@[i]).id
            < self.next_id
        &&& forall|i: int| 0 <= i < self.shots@.len() ==> (#[trigger] self.shots@[i]).id
            < self.next_id
        &&& forall|i: int, j: int|
            0 <= i < j < self.drones@.len() ==> (#[trigger] self.drones@[i]).id != (
            #[trigger] self.drones@[j]).id
        &&& forall|i: int, j: int|
            0 <= i < j < self.shots@.len() ==> (#[trigger] self.shots@[i]).id != (
            #[trigger] self.shots@[j]).id
        &&& forall|i: int, j: int|
            0 <= i < self.drones@.len() && 0 <= j < self.shots@.len() ==> (
            #[trigger] self.drones@[i]).id != (#[trigger] self.shots@[j]).id
    }

    pub open spec fn wf(&self) -> bool {
        &&& self.path.wf()
        &&& drones_ok(self.drones@)
        &&& towers_ok(self.towers@)
        &&& shots_ok(self.shots@)
        &&& bombs_ok(self.bombs@)
        &&& self.waves.wf()
        &&& self.accounting_ok()
        &&& self.ids_ok()
        &&& self.now <= MAX_CLOCK
        &&& forall|k: int| 0 <= k < self.packages@.len() ==> crate::path::coord_ok(
            (#[trigger] self.packages@[k]).pos,
        )
    }

    /// A fresh battle on a level: its path and terrain, its wave script, the
    /// starting balance, zeroed tallies, and empty rosters.
    pub fn new(level: u8) -> (r: BattleState)
        ensures
            r.wf(),
            r.money.0 == 200,
            r.stats == (DronesStats { killed: 0, survived: 0, spawned: 0 }),
            r.now == 0,
            r.drones@.len() == 0,
            r.cursor is Select,
    {
        let points = crate::path::path_of_level_n(level);
        proof {
            assert(crate::grid::points_nonneg(points@));
        }
        let grid = Grid::new(&points);
        let path = Path::from_points(points);
        BattleState {
            now: 0,
            money: Money(200),
            stats: DronesStats { killed: 0, survived: 0, spawned: 0 },
            cursor: CursorState::Select,
            path,
            grid,
            waves: WaveIterator::from_level(level),
            drones: Vec::new(),
            dying: Vec::new(),
            towers: Vec::new(),
            shots: Vec::new(),
            bombs: Vec::new(),
            exploding: Vec::new(),
            packages: Vec::new(),
            consumed: Vec::new(),
            next_id: 0,
        }
    }

    /// Destroyed plus escaped drones never exceed the spawned count.
    pub proof fn lemma_death_accounting(&self)
        requires
            self.accounting_ok(),
        ensures
            self.stats.killed + self.stats.survived <= self.stats.spawned,
    {
    }
}

} // verus!

verus! {

/// Filtering a roster of distinct-identity projectiles keeps identities
/// distinct.
proof fn lemma_filter_distinct_shots(s: Seq<ShotUnit>, pred: spec_fn(ShotUnit) -> bool)
    requires
        forall|i: int, j: int|
            0 <= i < j < s.len() ==> (#[trigger] s[i]).id != (#[trigger] s[j]).id,
    ensures
        forall|i: int, j: int|
            0 <= i < j < s.filter(pred).len() ==> (#[trigger] s.filter(pred)[i]).id != (
            #[trigger] s.filter(pred)[j]).id,
    decreases s.len(),
{
    reveal(Seq::filter);
    if s.len() > 0 {
        lemma_filter_distinct_shots(s.drop_last(), pred);
        lemma_filter_subset(s.drop_last(), pred);
        let f = s.filter(pred);
        let fd = s.drop_last().filter(pred);
        assert forall|i: int, j: int|
            0 <= i < j < f.len() implies (#[trigger] f[i]).id != (#[trigger] f[j]).id by {
            if pred(s.last()) && j == f.len() - 1 {
                assert(f[j] == s.last());
                assert(fd.contains(f[i])) by {
                    assert(fd[i] == f[i]);
                }
                assert(s.drop_last().contains(f[i]));
                let w = choose|w: int| 0 <= w < s.drop_last().len() && s.drop_last()[w] == f[i];
                assert(s[w] == f[i]);
                assert(s[w].id != s[s.len() - 1].id);
            } else {
                assert(f[i] == fd[i]);
                assert(f[j] == fd[j]);
            }
        }
    }
}

impl BattleState {
    /// One simulation tick, in the fixed in-tick order: the scheduler may
    /// release a drone; effects expire and drones advance; towers act;
    /// projectiles move; all contacts of the tick are computed before any is
    /// consumed; bombs resolve their area damage; death and escape
    /// transitions update the tallies; finished animations despawn. The
    /// returned contacts are the tick's emitted events. The balance is not
    /// touched: only player actions move it.
    #[verifier::rlimit(100)]
    pub fn tick(&mut self, dt_ms: u64) -> (contacts: Vec<Contact>)
        requires
            old(self).wf(),
            dt_ms <= crate::drones::MAX_TICK_MS,
            old(self).now + dt_ms <= MAX_CLOCK,
            old(self).stats.spawned < u32::MAX,
            old(self).next_id + 1 + old(self).towers@.len() <= u64::MAX,
        ensures
            final(self).wf(),
            final(self).now == old(self).now + dt_ms,
            final(self).money == old(self).money,
            final(self).stats.killed >= old(self).stats.killed,
            final(self).stats.survived >= old(self).stats.survived,
            old(self).stats.spawned <= final(self).stats.spawned <= old(self).stats.spawned + 1,
            final(self).stats.killed + final(self).stats.survived <= final(self).stats.spawned,
            // The tick's contact events pair one enemy with one projectile.
            forall|k: int| 0 <= k < contacts@.len() ==> contact_mixed(#[trigger] contacts@[k]),
            // The consumed set grows only by identities of emitted contacts.
            forall|id: u64| old(self).consumed@.contains(id) ==> final(self).consumed@.contains(
                id,
            ),
            forall|id: u64|
                #[trigger] final(self).consumed@.contains(id) ==> old(self).consumed@.contains(id)
                    || contact_names(contacts@, id),
            // The scheduler pops at most its queue's last element per tick.
            final(self).waves.upcoming@ == old(self).waves.upcoming@ || final(
                self
            ).waves.upcoming@ == old(self).waves.upcoming@.drop_last(),
    {
        let now = self.now + dt_ms;
        self.now = now;

        // Wave scheduler: maybe release a drone, then fast-forward if the
        // battle stands cleared.
        let ghost id_a = self.next_id;
        let ghost drones_a = self.drones@;
        let _wave = spawn_waves(
            &mut self.waves,
            &mut self.drones,
            &mut self.stats,
            &mut self.next_id,
            dt_ms,
        );
        proof {
            assert forall|i: int, j: int|
                0 <= i < j < self.drones@.len() implies (#[trigger] self.drones@[i]).id != (
            #[trigger] self.drones@[j]).id by {
                if j == drones_a.len() {
                    assert(self.drones@[i] == drones_a[i]);
                }
            }
        }
        skip_wave(&mut self.waves, &self.drones);

        // Effect expiry and movement.
        let ghost drones_b = self.drones@;
        remove_slow_down(&mut self.drones, now);
        proof {
            assert forall|i: int|
                0 <= i < self.drones@.len() implies drone_unit_ok(#[trigger] self.drones@[i]) by {
                assert(drone_unit_ok(drones_b[i]));
            }
        }
        update_drones(&mut self.drones, &self.path, dt_ms);

        // Towers act, projectiles move.
        let ghost id_b = self.next_id;
        let ghost shots_b = self.shots@;
        let ghost drones_c = self.drones@;
        tower_fire(&mut self.towers, &mut self.drones, &mut self.shots, &mut self.next_id, now);
        proof {
            assert forall|i: int, j: int|
                0 <= i < j < self.shots@.len() implies (#[trigger] self.shots@[i]).id != (
            #[trigger] self.shots@[j]).id by {
                if j >= shots_b.len() && i < shots_b.len() {
                    assert(self.shots@[i] == shots_b[i]);
                    assert(self.shots@[i].id < id_b);
                }
            }
            assert forall|i: int, j: int|
                0 <= i < self.drones@.len() && 0 <= j < self.shots@.len() implies (
            #[trigger] self.drones@[i]).id != (#[trigger] self.shots@[j]).id by {
                if j < shots_b.len() {
                    assert(self.shots@[j] == shots_b[j]);
                }
            }
        }
        move_shots(&mut self.shots, now);

        // All contacts of the tick are computed before any is consumed.
        proof {
            let all = battle_colliders(self.drones@, self.shots@);
            let nd = self.drones@.len() as int;
            assert forall|i: int, j: int|
                0 <= i < j < all.len() implies (#[trigger] all[i].id) != (#[trigger] all[j].id) by {
                if i < nd {
                    assert(all[i] == collider_of_drone(self.drones@[i]));
                } else {
                    assert(all[i] == collider_of_shot(self.shots@[i - nd]));
                }
                if j < nd {
                    assert(all[j] == collider_of_drone(self.drones@[j]));
                } else {
                    assert(all[j] == collider_of_shot(self.shots@[j - nd]));
                }
            }
        }
        let ghost consumed_pre = self.consumed@;
        let contacts = collide_pass(&self.drones, &self.shots, &mut self.consumed);

        // Consumers read the contacts: direct damage and bomb arming.
        let ghost shots_c = self.shots@;
        let ghost drones_d = self.drones@;
        let ghost bombs_pre = self.bombs@;
        proof {
            lemma_contact_shape(drones_d, shots_c, consumed_pre, self.consumed@, contacts@);
        }
        drones_dead(&contacts, &mut self.drones, &mut self.shots, &mut self.bombs);
        proof {
            lemma_armed_bombs_ok(contacts@, shots_c, drones_d);
            let armed = armed_bombs(contacts@, shots_c, drones_d);
            assert forall|q: int|
                0 <= q < self.bombs@.len() implies 0 <= (#[trigger] self.bombs@[q]).damages
                <= 1_000_000 && 0 <= self.bombs@[q].radius <= crate::path::MAX_COORD
                && crate::path::coord_ok(
                Vec2i { x: self.bombs@[q].x, y: self.bombs@[q].y },
            ) by {
                if q < bombs_pre.len() {
                    assert(self.bombs@[q] == bombs_pre[q]);
                } else {
                    assert(self.bombs@[q] == armed[q - bombs_pre.len()]);
                }
            }
        }
        proof {
            assert forall|i: int|
                0 <= i < self.shots@.len() implies (#[trigger] self.shots@[i]).id
                < self.next_id by {
                assert(self.shots@.contains(self.shots@[i]));
                assert(shots_c.contains(self.shots@[i]));
                let w = choose|w: int| 0 <= w < shots_c.len() && shots_c[w] == self.shots@[i];
            }
            assert forall|i: int, j: int|
                0 <= i < self.drones@.len() && 0 <= j < self.shots@.len() implies (
            #[trigger] self.drones@[i]).id != (#[trigger] self.shots@[j]).id by {
                assert(self.shots@.contains(self.shots@[j]));
                assert(shots_c.contains(self.shots@[j]));
                let w = choose|w: int| 0 <= w < shots_c.len() && shots_c[w] == self.shots@[j];
                assert(self.drones@[i].id == drones_d[i].id);
            }
        }

        // Area damage resolves exactly once, at arming time; the bombs then
        // turn into visual-only explosions.
        if self.bombs.len() <= 1_000_000 {
            bomb_exploding(&self.bombs, &mut self.drones);
            make_bomb_explode(&mut self.bombs, &mut self.exploding, now);
        }

        // Death and escape transitions.
        let ghost drones_e = self.drones@;
        let ghost pred_alive = (|d: DroneUnit| d.enemy.stats.hp > 0);
        kill_drone(
            &mut self.drones,
            &mut self.dying,
            &mut self.packages,
            &mut self.stats,
            &self.path,
            now,
        );
        proof {
            lemma_filter_distinct_drones(drones_e, pred_alive);
            lemma_filter_subset(drones_e, pred_alive);
            assert forall|i: int|
                0 <= i < self.drones@.len() implies (#[trigger] self.drones@[i]).id
                < self.next_id by {
                assert(self.drones@.contains(self.drones@[i]));
                assert(drones_e.contains(self.drones@[i]));
                let w = choose|w: int| 0 <= w < drones_e.len() && drones_e[w] == self.drones@[i];
            }
            assert forall|i: int, j: int|
                0 <= i < self.drones@.len() && 0 <= j < self.shots@.len() implies (
            #[trigger] self.drones@[i]).id != (#[trigger] self.shots@[j]).id by {
                assert(self.drones@.contains(self.drones@[i]));
                assert(drones_e.contains(self.drones@[i]));
                let w = choose|w: int| 0 <= w < drones_e.len() && drones_e[w] == self.drones@[i];
            }
        }
        let ghost drones_f = self.drones@;
        let ghost total = crate::path::total_len(self.path.points@);
        let ghost pred_on_path = (|d: DroneUnit| (d.enemy.advance as int) < total);
        drone_won(&mut self.drones, &mut self.stats, &self.path);
        proof {
            lemma_filter_distinct_drones(drones_f, pred_on_path);
            lemma_filter_subset(drones_f, pred_on_path);
            assert forall|i: int|
                0 <= i < self.drones@.len() implies drone_unit_ok(#[trigger] self.drones@[i]) && (
            #[trigger] self.drones@[i]).id < self.next_id by {
                assert(self.drones@.contains(self.drones@[i]));
                assert(drones_f.contains(self.drones@[i]));
                let w = choose|w: int| 0 <= w < drones_f.len() && drones_f[w] == self.drones@[i];
            }
            assert forall|i: int, j: int|
                0 <= i < self.drones@.len() && 0 <= j < self.shots@.len() implies (
            #[trigger] self.drones@[i]).id != (#[trigger] self.shots@[j]).id by {
                assert(self.drones@.contains(self.drones@[i]));
                assert(drones_f.contains(self.drones@[i]));
                let w = choose|w: int| 0 <= w < drones_f.len() && drones_f[w] == self.drones@[i];
            }
        }

        // Finished animations despawn; cooldowns and travels complete.
        despawn_drone(&mut self.dying, now);
        let ghost towers_a = self.towers@;
        proof {
            assert forall|i: int|
                0 <= i < towers_a.len() implies (match (#[trigger] towers_a[i]).just_fired {
                Some(jf) => jf.t0 + jf.delay <= u64::MAX,
                None => true,
            }) by {
                assert(tower_unit_ok(towers_a[i]));
            }
        }
        update_just_fired(&mut self.towers, now);
        proof {
            assert forall|i: int|
                0 <= i < self.towers@.len() implies tower_unit_ok(#[trigger] self.towers@[i]) by {
                assert(tower_unit_ok(towers_a[i]));
            }
        }
        let ghost shots_d = self.shots@;
        let ghost pred_flying = (|s: ShotUnit| s.t0 + s.duration > now);
        remove_shots(&mut self.shots, now);
        proof {
            lemma_filter_distinct_shots(shots_d, pred_flying);
            lemma_filter_subset(shots_d, pred_flying);
            assert forall|i: int|
                0 <= i < self.shots@.len() implies shot_unit_ok(#[trigger] self.shots@[i]) && (
            #[trigger] self.shots@[i]).id < self.next_id by {
                assert(self.shots@.contains(self.shots@[i]));
                assert(shots_d.contains(self.shots@[i]));
                let w = choose|w: int| 0 <= w < shots_d.len() && shots_d[w] == self.shots@[i];
            }
            assert forall|i: int, j: int|
                0 <= i < self.drones@.len() && 0 <= j < self.shots@.len() implies (
            #[trigger] self.drones@[i]).id != (#[trigger] self.shots@[j]).id by {
                assert(self.shots@.contains(self.shots@[j]));
                assert(shots_d.contains(self.shots@[j]));
                let w = choose|w: int| 0 <= w < shots_d.len() && shots_d[w] == self.shots@[j];
            }
        }
        bomb_exploded(&mut self.exploding, now);
        contacts
    }
}

} // verus!
