//! Terrain classification and the drone movement and damage rules.

use sabotage_core::battle::{remove_slow_down, update_drones, DroneUnit};
use sabotage_core::drones::{advance_drone, apply_damage, Drones};
use sabotage_core::grid::{Grid, RoadElement};
use sabotage_core::path::{Path, Vec2i};
use sabotage_core::tower::Slow;

#[test]
fn terrain_classifies_road_rock_plain() {
    // A straight horizontal lane on row 4.
    let points = vec![Vec2i { x: 0, y: 4_000 }, Vec2i { x: 20_000, y: 4_000 }];
    let grid = Grid::new(&points);
    assert_eq!(grid.elements.len(), 24);
    assert_eq!(grid.elements[0].len(), 40);
    // Cells under the lane are road.
    assert_eq!(grid.elements[4][0], RoadElement::Road);
    assert_eq!(grid.elements[4][20], RoadElement::Road);
    // Just past the lane's end: within two steps of road, so buildable rock.
    assert_eq!(grid.elements[4][21], RoadElement::Rock);
    assert_eq!(grid.elements[4][23], RoadElement::Plain);
    // Neighbors within two steps are buildable rock.
    assert_eq!(grid.elements[5][3], RoadElement::Rock);
    assert_eq!(grid.elements[6][3], RoadElement::Rock);
    // Beyond the neighborhood, plain again.
    assert_eq!(grid.elements[7][3], RoadElement::Plain);
    // The diamond neighborhood excludes the far diagonal.
    assert_eq!(grid.elements[6][1], RoadElement::Rock);
    assert_eq!(grid.elements[2][5], RoadElement::Rock);
}

#[test]
fn buildable_needs_rock_and_vacancy() {
    let points = vec![Vec2i { x: 0, y: 4_000 }, Vec2i { x: 20_000, y: 4_000 }];
    let mut grid = Grid::new(&points);
    assert!(grid.buildable(3, 5));
    assert!(!grid.buildable(3, 4));
    grid.occupy(3, 5);
    assert!(!grid.buildable(3, 5));
    grid.free(3, 5);
    assert!(grid.buildable(3, 5));
}

#[test]
fn advance_grows_with_effective_speed() {
    let (mut e, _) = Drones::Simple1.instantiate();
    // 0.5 tiles per second for one second.
    advance_drone(&mut e, None, 1_000);
    assert_eq!(e.advance, 500);
    // Slowed to 0.66 of the speed: 330 thousandths of a tile more.
    advance_drone(&mut e, Some(660), 1_000);
    assert_eq!(e.advance, 830);
    // A zero tick moves nothing.
    advance_drone(&mut e, None, 0);
    assert_eq!(e.advance, 830);
}

#[test]
fn damage_floors_at_zero_and_reports_the_kill() {
    let (mut e, _) = Drones::Simple1.instantiate();
    assert!(!apply_damage(&mut e, 24_999));
    assert_eq!(e.stats.hp, 1);
    assert!(apply_damage(&mut e, 6_000));
    assert_eq!(e.stats.hp, 0);
    // A dead drone takes no further transition.
    assert!(!apply_damage(&mut e, 6_000));
    assert_eq!(e.stats.hp, 0);
}

#[test]
fn slow_expires_on_the_clock() {
    let (enemy, hitbox) = Drones::Simple1.instantiate();
    let mut drones = vec![DroneUnit {
        id: 0,
        enemy,
        hitbox,
        pos: Vec2i { x: 0, y: 0 },
        slow: Some(Slow { factor: 500, t_final: 1_000 }),
        package: None,
    }];
    remove_slow_down(&mut drones, 999);
    assert!(drones[0].slow.is_some());
    remove_slow_down(&mut drones, 1_000);
    assert!(drones[0].slow.is_none());
}

#[test]
fn movement_follows_the_path() {
    let path = Path::from_points(vec![Vec2i { x: 0, y: 0 }, Vec2i { x: 10_000, y: 0 }]);
    let (enemy, hitbox) = Drones::Simple1.instantiate();
    let mut drones = vec![DroneUnit {
        id: 0,
        enemy,
        hitbox,
        pos: Vec2i { x: 0, y: 0 },
        slow: None,
        package: None,
    }];
    update_drones(&mut drones, &path, 2_000);
    // One second of 0.5 tiles per second, twice.
    assert_eq!(drones[0].enemy.advance, 1_000);
    // The sprite centers on the lane: x doubled into tiles and converted,
    // minus half the one-tile-wide sprite, plus one tile.
    assert_eq!(drones[0].pos.x, 16 * 1_000 - 4_000 + 8_000);
    assert_eq!(drones[0].pos.y, 6 * 8_000 + 12_000);
}
