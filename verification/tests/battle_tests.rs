//! Economy, tower actions, enemy lifecycle accounting, and whole ticks.

use sabotage_core::battle::{
    apply_slow, battle_won, bomb_exploded, bomb_exploding, collect_package, drone_won,
    drones_dead, kill_drone, make_bomb_explode, move_shots, place_tower, sell_tower,
    tower_fire, update_progress, upgrade_tower, BattleState, CursorState, DroneUnit,
    DronesStats, DyingDrone, Explosion, Money, PackageUnit, ShotUnit, TowerUnit,
};
use sabotage_core::collision::{BodyRef, BodyType, Contact, HitBox};
use sabotage_core::shot::{Shot, Shots};
use sabotage_core::drones::Drones;
use sabotage_core::package::{Package, PackageKind};
use sabotage_core::path::{path_of_level_n, Path, Vec2i};
use sabotage_core::shot::Bomb;
use sabotage_core::tower::Towers;

fn drone_at(id: u64, class: Drones, advance: i64) -> DroneUnit {
    let (mut enemy, hitbox) = class.instantiate();
    enemy.advance = advance;
    DroneUnit { id, enemy, hitbox, pos: Vec2i { x: 0, y: 0 }, slow: None, package: None }
}

#[test]
fn spending_is_rejected_without_funds() {
    let mut money = Money(39);
    assert!(!money.try_spend(40));
    assert_eq!(money.0, 39);
    assert!(money.try_spend(39));
    assert_eq!(money.0, 0);
}

#[test]
fn cursed_package_floors_at_zero() {
    let mut money = Money(10);
    money.curse(30);
    assert_eq!(money.0, 0);
    let mut rich = Money(100);
    rich.curse(30);
    assert_eq!(rich.0, 70);
}

/// A sequence of place, sell, upgrade and loot-collect actions: the balance
/// never goes negative, and an action that would overdraw is rejected with
/// the balance unchanged.
#[test]
fn economy_action_sequence() {
    let points = path_of_level_n(1);
    let mut state = BattleState::new(1);
    assert_eq!(state.money.0, 200);
    let path = Path::from_points(points);
    assert!(path.length > 0);

    // Find a buildable cell.
    let mut cell = None;
    for y in 0..9usize {
        for x in 0..20usize {
            if state.grid.buildable(x, y) {
                cell = Some((x, y));
            }
        }
    }
    let (x, y) = cell.expect("the level has buildable cells");

    // Place (costs 60), then an occupied cell rejects placement unchanged.
    assert!(place_tower(&mut state.towers, &mut state.grid, &mut state.money, Towers::PaintBomb, x, y, 0));
    assert_eq!(state.money.0, 140);
    assert!(!place_tower(&mut state.towers, &mut state.grid, &mut state.money, Towers::PaintBomb, x, y, 0));
    assert_eq!(state.money.0, 140);

    // Upgrade twice (2 * 60, then... the second costs 4 * 60 and is rejected).
    state.cursor = CursorState::Upgrade;
    assert!(upgrade_tower(&mut state.towers, &mut state.money, &mut state.cursor, x, y));
    assert_eq!(state.money.0, 20);
    assert_eq!(state.towers[0].tower.rank, 2);
    state.cursor = CursorState::Upgrade;
    assert!(!upgrade_tower(&mut state.towers, &mut state.money, &mut state.cursor, x, y));
    assert_eq!(state.money.0, 20);
    assert_eq!(state.towers[0].tower.rank, 2);

    // Sell: rank two refunds cost * 3 / 2 = 90.
    state.cursor = CursorState::Sell;
    assert!(sell_tower(&mut state.towers, &mut state.grid, &mut state.money, &mut state.cursor, x, y));
    assert_eq!(state.money.0, 110);
    assert_eq!(state.towers.len(), 0);
    assert_eq!(state.cursor, CursorState::Select);

    // Collecting packages.
    let mut packages = vec![
        PackageUnit { package: Package { kind: PackageKind::Money }, pos: Vec2i { x: 0, y: 0 } },
        PackageUnit { package: Package { kind: PackageKind::Cursed }, pos: Vec2i { x: 0, y: 0 } },
    ];
    let mut bombs: Vec<Bomb> = Vec::new();
    collect_package(&mut packages, &mut state.money, &mut bombs, false, 0);
    assert_eq!(state.money.0, 170);
    collect_package(&mut packages, &mut state.money, &mut bombs, false, 0);
    assert_eq!(state.money.0, 140);
    assert_eq!(packages.len(), 0);
    assert_eq!(bombs.len(), 0);
}

#[test]
fn omega_package_arms_a_bomb_instead_of_paying() {
    let mut money = Money(50);
    let mut bombs: Vec<Bomb> = Vec::new();
    let mut packages = vec![PackageUnit {
        package: Package { kind: PackageKind::Omega },
        pos: Vec2i { x: 8_000, y: 9_000 },
    }];
    collect_package(&mut packages, &mut money, &mut bombs, false, 0);
    assert_eq!(money.0, 50);
    assert_eq!(bombs.len(), 1);
    assert_eq!(bombs[0].x, 8_000);
    assert_eq!(bombs[0].y, 9_000);
    assert_eq!(bombs[0].radius, 48_000);
    assert_eq!(bombs[0].damages, 100_000);
}

#[test]
fn sell_mode_redirects_collection_to_fixed_payout() {
    let mut money = Money(0);
    let mut bombs: Vec<Bomb> = Vec::new();
    let mut packages = vec![PackageUnit {
        package: Package { kind: PackageKind::Omega },
        pos: Vec2i { x: 0, y: 0 },
    }];
    collect_package(&mut packages, &mut money, &mut bombs, true, 0);
    assert_eq!(money.0, 10);
    assert_eq!(bombs.len(), 0);
}

/// Killed increments exactly once per enemy, the instant health reaches zero,
/// not at despawn; killed + survived never exceeds the spawn count.
#[test]
fn death_accounting() {
    let points = path_of_level_n(6);
    let path = Path::from_points(points);
    let mut drones = vec![
        drone_at(0, Drones::Simple1, 0),
        drone_at(1, Drones::Simple2, 100),
        drone_at(2, Drones::Simple3, 200),
    ];
    // One dies, one escapes, one lives on.
    drones[0].enemy.stats.hp = 0;
    drones[2].enemy.advance = path.length;
    let mut dying: Vec<DyingDrone> = Vec::new();
    let mut packages: Vec<PackageUnit> = Vec::new();
    let mut stats = DronesStats { killed: 0, survived: 0, spawned: 3 };

    kill_drone(&mut drones, &mut dying, &mut packages, &mut stats, &path, 1_000);
    assert_eq!(stats.killed, 1);
    assert_eq!(drones.len(), 2);
    assert_eq!(dying.len(), 1);
    assert_eq!(dying[0].until, 1_000 + 1_600);

    drone_won(&mut drones, &mut stats, &path);
    assert_eq!(stats.survived, 1);
    assert_eq!(drones.len(), 1);

    // The dying drone despawns later without touching the tallies.
    sabotage_core::battle::despawn_drone(&mut dying, 5_000);
    assert_eq!(dying.len(), 0);
    assert_eq!(stats.killed, 1);

    assert!(stats.killed + stats.survived <= stats.spawned);
    assert_eq!(
        stats.spawned as usize,
        stats.killed as usize + stats.survived as usize + drones.len()
    );
}

#[test]
fn dying_drone_drops_its_package_on_the_road() {
    let path = Path::from_points(vec![Vec2i { x: 0, y: 0 }, Vec2i { x: 10_000, y: 0 }]);
    let mut d = drone_at(0, Drones::Simple1, 4_000);
    d.enemy.stats.hp = 0;
    d.package = Some(Package { kind: PackageKind::Common });
    let mut drones = vec![d];
    let mut dying: Vec<DyingDrone> = Vec::new();
    let mut packages: Vec<PackageUnit> = Vec::new();
    let mut stats = DronesStats { killed: 0, survived: 0, spawned: 1 };
    kill_drone(&mut drones, &mut dying, &mut packages, &mut stats, &path, 0);
    assert_eq!(packages.len(), 1);
    // The drop lands at the drone's path position, converted to world space.
    assert_eq!(packages[0].pos, Vec2i { x: 16 * 4_000 + 4_000, y: 6 * 8_000 + 4_000 });
}

#[test]
fn area_slow_applies_within_range_only() {
    let mut drones = vec![drone_at(0, Drones::Simple1, 0), drone_at(1, Drones::Simple1, 0)];
    drones[0].pos = Vec2i { x: 0, y: 0 };
    drones[1].pos = Vec2i { x: 100_000, y: 0 };
    apply_slow(&mut drones, Vec2i { x: 0, y: 0 }, 32_000, 660, 500);
    let s = drones[0].slow.expect("in range receives the slow");
    assert_eq!(s.factor, 660);
    assert_eq!(s.t_final, 500 + 10_000);
    assert!(drones[1].slow.is_none());
}

#[test]
fn battle_outcome_rules() {
    assert!(battle_won(&DronesStats { killed: 0, survived: 0, spawned: 0 }));
    assert!(!battle_won(&DronesStats { killed: 0, survived: 1, spawned: 1 }));
    assert!(battle_won(&DronesStats { killed: 10, survived: 5, spawned: 15 }));
    assert!(!battle_won(&DronesStats { killed: 10, survived: 6, spawned: 16 }));

    let mut unlocked = 3u8;
    update_progress(&mut unlocked, 3, true);
    assert_eq!(unlocked, 4);
    update_progress(&mut unlocked, 3, true);
    assert_eq!(unlocked, 4);
    update_progress(&mut unlocked, 5, false);
    assert_eq!(unlocked, 4);
}

/// A whole battle driven headlessly: ticks run, drones spawn, and the
/// accounting invariant holds at every step.
#[test]
fn ticks_preserve_accounting() {
    let mut state = BattleState::new(1);
    // Build one tower on the first buildable cell.
    let mut cell = None;
    for y in 0..9usize {
        for x in 0..20usize {
            if cell.is_none() && state.grid.buildable(x, y) {
                cell = Some((x, y));
            }
        }
    }
    let (x, y) = cell.unwrap();
    assert!(place_tower(&mut state.towers, &mut state.grid, &mut state.money, Towers::Lightning, x, y, 0));

    for _ in 0..2_000u32 {
        state.tick(16);
        assert_eq!(
            state.stats.spawned as usize,
            state.stats.killed as usize + state.stats.survived as usize + state.drones.len()
        );
    }
    assert!(state.stats.spawned > 0);
    // Money is not touched by the simulation itself.
    assert_eq!(state.money.0, 160);
}

#[test]
fn tower_unit_state_machine() {
    let t = Towers::Lightning.instantiate(3, 4);
    assert_eq!(t.rank, 1);
    assert_eq!(t.x, 3);
    let jf = sabotage_core::tower::JustFired::new(100, 2_000);
    assert!(!jf.is_ready(2_099));
    assert!(jf.is_ready(2_100));
    let _ = TowerUnit { tower: t, pos: Vec2i { x: 0, y: 0 }, just_fired: Some(jf) };
}

/// A bomb shot does not damage on contact: it arms a bomb where it stopped,
/// and the area resolution then damages every drone within the blast radius
/// exactly once.
#[test]
fn bomb_contact_arms_then_area_damages() {
    let mut near = drone_at(1, Drones::Simple1, 0);
    near.pos = Vec2i { x: 10_000, y: 0 };
    let mut far = drone_at(2, Drones::Simple1, 0);
    far.pos = Vec2i { x: 200_000, y: 0 };
    let mut drones = vec![near, far];

    let shot = Shot { class: Shots::Bomb, damage: 6_000, speed: 120_000 };
    let hitbox = HitBox {
        body_type: BodyType::ShipShot,
        width: 4_000,
        height: 4_000,
        offset: Vec2i { x: 2_000, y: 2_000 },
        single_hit: true,
    };
    let mut shots = vec![ShotUnit {
        id: 9,
        shot,
        hitbox,
        start: Vec2i { x: 0, y: 0 },
        end: Vec2i { x: 10_000, y: 0 },
        pos: Vec2i { x: 10_000, y: 0 },
        t0: 0,
        duration: 100,
    }];
    let contacts = vec![Contact(BodyRef(BodyType::Enemy, 1), BodyRef(BodyType::ShipShot, 9))];
    let mut bombs = Vec::new();
    drones_dead(&contacts, &mut drones, &mut shots, &mut bombs);

    // The shot despawned; no direct damage; a bomb stands armed at the
    // shot's resting position.
    assert_eq!(shots.len(), 0);
    assert_eq!(drones[0].enemy.stats.hp, 25_000);
    assert_eq!(bombs.len(), 1);
    assert_eq!(bombs[0].x, 10_000);
    assert_eq!(bombs[0].radius, 28_000);

    // Area resolution: the near drone takes the damage, the far one none.
    bomb_exploding(&bombs, &mut drones);
    assert_eq!(drones[0].enemy.stats.hp, 25_000 - 6_000);
    assert_eq!(drones[1].enemy.stats.hp, 25_000);

    // The bomb turns into a timed visual explosion and is never re-applied.
    let mut exploding: Vec<Explosion> = Vec::new();
    make_bomb_explode(&mut bombs, &mut exploding, 1_000);
    assert_eq!(bombs.len(), 0);
    assert_eq!(exploding.len(), 1);
    assert_eq!(exploding[0].until, 1_500);
    bomb_exploding(&bombs, &mut drones);
    assert_eq!(drones[0].enemy.stats.hp, 19_000);
    bomb_exploded(&mut exploding, 1_500);
    assert_eq!(exploding.len(), 0);
}

/// An electric shot deals its damage directly on contact and despawns.
#[test]
fn electric_contact_damages_directly() {
    let mut d = drone_at(1, Drones::Simple1, 0);
    d.pos = Vec2i { x: 0, y: 0 };
    let mut drones = vec![d];
    let shot = Shot { class: Shots::Electricity, damage: 2_000, speed: 120_000 };
    let hitbox = HitBox {
        body_type: BodyType::ShipShot,
        width: 4_000,
        height: 4_000,
        offset: Vec2i { x: 2_000, y: 2_000 },
        single_hit: true,
    };
    let mut shots = vec![ShotUnit {
        id: 9,
        shot,
        hitbox,
        start: Vec2i { x: 0, y: 0 },
        end: Vec2i { x: 0, y: 0 },
        pos: Vec2i { x: 0, y: 0 },
        t0: 0,
        duration: 100,
    }];
    // The contact's sides may come in either order.
    let contacts = vec![Contact(BodyRef(BodyType::ShipShot, 9), BodyRef(BodyType::Enemy, 1))];
    let mut bombs = Vec::new();
    drones_dead(&contacts, &mut drones, &mut shots, &mut bombs);
    assert_eq!(drones[0].enemy.stats.hp, 23_000);
    assert_eq!(shots.len(), 0);
    assert_eq!(bombs.len(), 0);
}

/// A ready damage tower with a target fires one projectile at the in-range
/// drone furthest along the path and enters its cooldown; one with no target
/// in range stays ready. The effect tower pulses every reload regardless.
#[test]
fn firing_state_machine() {
    let mut near = drone_at(1, Drones::Simple1, 700);
    near.pos = Vec2i { x: 10_000, y: 9_000 };
    let mut far = drone_at(2, Drones::Simple1, 900);
    far.pos = Vec2i { x: 410_000, y: 9_000 };
    let mut drones = vec![near, far];

    let lightning = TowerUnit {
        tower: Towers::Lightning.instantiate(0, 0),
        pos: Vec2i { x: 0, y: 8_000 },
        just_fired: None,
    };
    let scrambler = TowerUnit {
        tower: Towers::Scrambler.instantiate(5, 0),
        pos: Vec2i { x: 400_000, y: 8_000 },
        just_fired: None,
    };
    let mut towers = vec![lightning, scrambler];
    let mut shots: Vec<ShotUnit> = Vec::new();
    let mut next_id = 100u64;
    tower_fire(&mut towers, &mut drones, &mut shots, &mut next_id, 50);

    // The lightning tower reaches only the near drone and fires at it.
    assert_eq!(shots.len(), 1);
    assert_eq!(shots[0].id, 100);
    assert_eq!(shots[0].shot.class, Shots::Electricity);
    assert_eq!(shots[0].shot.damage, 2_000);
    assert_eq!(shots[0].start, Vec2i { x: 0, y: 9_000 });
    assert_eq!(shots[0].t0, 50);
    assert_eq!(next_id, 101);
    // It enters its reload cooldown; the scrambler pulsed and cools too.
    assert_eq!(towers[0].just_fired, Some(sabotage_core::tower::JustFired { t0: 50, delay: 3_000 }));
    assert_eq!(towers[1].just_fired, Some(sabotage_core::tower::JustFired { t0: 50, delay: 5_000 }));
    // The scrambler's aura reaches only the far drone.
    assert!(drones[0].slow.is_none());
    let s = drones[1].slow.expect("covered drone is slowed");
    assert_eq!(s.factor, 660);

    // A ready damage tower with no drone in range stays ready.
    let lonely = TowerUnit {
        tower: Towers::Lightning.instantiate(0, 0),
        pos: Vec2i { x: 0, y: 8_000 },
        just_fired: None,
    };
    let mut far_only = vec![drone_at(3, Drones::Simple1, 0)];
    far_only[0].pos = Vec2i { x: 900_000, y: 900_000 };
    let mut towers2 = vec![lonely];
    let mut shots2: Vec<ShotUnit> = Vec::new();
    let mut next_id2 = 0u64;
    tower_fire(&mut towers2, &mut far_only, &mut shots2, &mut next_id2, 50);
    assert_eq!(shots2.len(), 0);
    assert_eq!(towers2[0].just_fired, None);
}

/// Projectiles move along their line and stop at their end point.
#[test]
fn shots_interpolate_along_their_line() {
    let shot = Shot { class: Shots::Electricity, damage: 2_000, speed: 120_000 };
    let hitbox = HitBox {
        body_type: BodyType::ShipShot,
        width: 4_000,
        height: 4_000,
        offset: Vec2i { x: 2_000, y: 2_000 },
        single_hit: true,
    };
    let mut shots = vec![ShotUnit {
        id: 0,
        shot,
        hitbox,
        start: Vec2i { x: 0, y: 0 },
        end: Vec2i { x: 1_000, y: -2_000 },
        pos: Vec2i { x: 0, y: 0 },
        t0: 100,
        duration: 400,
    }];
    move_shots(&mut shots, 200);
    assert_eq!(shots[0].pos, Vec2i { x: 250, y: -500 });
    move_shots(&mut shots, 900);
    assert_eq!(shots[0].pos, Vec2i { x: 1_000, y: -2_000 });
    // Before its spawn instant the projectile stands at its start.
    move_shots(&mut shots, 0);
    assert_eq!(shots[0].pos, Vec2i { x: 0, y: 0 });
}
