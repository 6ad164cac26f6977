//! Stats tables, shots, drone models, packages and the palette.

use sabotage_core::drones::Drones;
use sabotage_core::package::{Package, PackageKind};
use sabotage_core::palette::Palette;
use sabotage_core::shot::{Bomb, Shot, Shots};
use sabotage_core::sprites::DroneModels;
use sabotage_core::tower::{pick_target, TargetView, Towers};
use sabotage_core::path::Vec2i;

#[test]
fn tower_stats_tables() {
    let t1 = Towers::Lightning.instantiate(0, 0);
    assert_eq!(t1.reload_delay(), 3_000);
    assert_eq!(t1.range(), 40_000);
    assert_eq!(t1.damage(), 2_000);
    assert_eq!(t1.shot_speed(), 120_000);
    assert_eq!(t1.get_attr1(), Some(1));
    assert_eq!(t1.get_attr2(), Some(5));

    let mut t2 = Towers::PaintBomb.instantiate(0, 0);
    t2.rank = 3;
    assert_eq!(t2.reload_delay(), 5_000);
    assert_eq!(t2.range(), 40_000);
    assert_eq!(t2.damage(), 18_000);
    assert_eq!(t2.get_attr1(), Some(10));

    let mut t3 = Towers::Scrambler.instantiate(0, 0);
    assert_eq!(t3.slow_factor(), 660);
    t3.rank = 2;
    assert_eq!(t3.slow_factor(), 500);
    assert_eq!(t3.get_attr1(), Some(6));
    assert_eq!(t3.damage(), 0);
}

#[test]
fn tower_economics() {
    let mut t = Towers::Lightning.instantiate(0, 0);
    assert_eq!(Towers::Lightning.get_cost(), 40);
    assert_eq!(Towers::PaintBomb.get_cost(), 60);
    assert_eq!(Towers::Scrambler.get_cost(), 50);
    assert_eq!(t.upgrade_cost(), Some(80));
    assert_eq!(t.sell_price(), 20);
    t.rank = 2;
    assert_eq!(t.upgrade_cost(), Some(160));
    assert_eq!(t.sell_price(), 60);
    t.rank = 3;
    assert_eq!(t.upgrade_cost(), None);
    assert_eq!(t.sell_price(), 140);
}

#[test]
fn drone_stats_tables() {
    let (e, hb) = Drones::Simple1.instantiate();
    assert_eq!(e.stats.hp, 25_000);
    assert_eq!(e.stats.speed, 500);
    assert_eq!(e.advance, 0);
    assert!(!hb.single_hit);
    assert_eq!(hb.width, 8_000);
    assert_eq!(hb.height, 13_000);

    let (big, _) = Drones::Big1.instantiate();
    assert_eq!(big.stats.hp, 300_000);
    assert_eq!(big.stats.speed, 250);
    let (inv, ihb) = Drones::Invader.instantiate();
    assert_eq!(inv.stats.hp, 1_000_000);
    assert_eq!(inv.stats.speed, 125);
    assert_eq!(ihb.width, 24_000);
    assert_eq!(ihb.height, 24_000);
}

#[test]
fn shot_tables() {
    let t = Towers::PaintBomb.instantiate(0, 0);
    let (shot, hb) = Shots::Bomb.instantiate(&t);
    assert_eq!(shot.class, Shots::Bomb);
    assert_eq!(shot.damage, 6_000);
    assert_eq!(shot.speed, 120_000);
    assert!(hb.single_hit);
    assert_eq!(hb.width, 4_000);
    assert!(Shots::Electricity.is_single_hit());
    assert_eq!(Shots::Bomb.get_bomb_range(), 28_000);
    assert_eq!(Shots::Electricity.get_bomb_range(), 0);
    assert_eq!(Shots::Electricity.get_tile(), (0, 0, 35, 16, 8, false, 0));
    assert_eq!(Towers::Lightning.get_shot(), Some(Shots::Electricity));
    assert_eq!(Towers::Scrambler.get_shot(), None);
}

#[test]
fn bomb_reaches_within_radius_inclusive() {
    let b = Bomb::new(Vec2i { x: 0, y: 0 }, 5_000, 1_000);
    assert!(b.reaches(Vec2i { x: 3_000, y: 4_000 }));
    assert!(!b.reaches(Vec2i { x: 3_000, y: 4_001 }));
    let armed = Bomb::from_shot_translation(
        Shot { class: Shots::Bomb, damage: 6_000, speed: 120_000 },
        Vec2i { x: 7, y: 8 },
    );
    assert_eq!(armed.radius, 28_000);
    assert_eq!(armed.damages, 6_000);
    assert_eq!(armed.position(), Vec2i { x: 7, y: 8 });
}

/// Target selection prefers the enemy furthest along the path among those in
/// range, breaking ties toward the later one.
#[test]
fn target_selection_picks_furthest_in_range() {
    let center = Vec2i { x: 0, y: 0 };
    let enemies = vec![
        TargetView { pos: Vec2i { x: 1_000, y: 0 }, advance: 500 },
        TargetView { pos: Vec2i { x: 2_000, y: 0 }, advance: 900 },
        TargetView { pos: Vec2i { x: 100_000, y: 0 }, advance: 5_000 },
        TargetView { pos: Vec2i { x: 3_000, y: 0 }, advance: 900 },
    ];
    // The out-of-range enemy with the largest advance is ignored; the tie at
    // 900 goes to the later index.
    assert_eq!(pick_target(&enemies, center, 32_000), Some(3));
    assert_eq!(pick_target(&enemies, center, 0), None);
}

#[test]
fn package_kinds_and_tiles() {
    assert_eq!(PackageKind::Common.get_tile(), 393);
    assert_eq!(PackageKind::Money.get_tile(), 395);
    assert_eq!(PackageKind::Cursed.get_tile(), 397);
    assert_eq!(PackageKind::Omega.get_tile(), 401);
    let p = Package { kind: PackageKind::Money };
    assert_eq!(p.tile(), (0, 0, 395, 14, 11, false, 0));
}

/// The weighted draw maps rolls to kinds band by band; a fresh package always
/// carries one of the four kinds, and the common band dominates.
#[test]
fn weighted_loot_selection() {
    assert_eq!(PackageKind::from_roll(0), PackageKind::Common);
    assert_eq!(PackageKind::from_roll(19), PackageKind::Common);
    assert_eq!(PackageKind::from_roll(20), PackageKind::Money);
    assert_eq!(PackageKind::from_roll(21), PackageKind::Money);
    assert_eq!(PackageKind::from_roll(22), PackageKind::Cursed);
    assert_eq!(PackageKind::from_roll(23), PackageKind::Cursed);
    assert_eq!(PackageKind::from_roll(24), PackageKind::Omega);

    let mut saw_common = false;
    for _ in 0..200 {
        let p = Package::new();
        let tile = p.tile().2;
        assert!(tile == 393 || tile == 395 || tile == 397 || tile == 401);
        if tile == 393 {
            saw_common = true;
        }
    }
    assert!(saw_common);
}

#[test]
fn drone_models_fill_their_blocks() {
    assert_eq!(DroneModels::Simple1.get_tiles().len(), 3);
    assert_eq!(DroneModels::Medium3.get_tiles().len(), 6);
    assert_eq!(DroneModels::Invader.get_tiles().len(), 9);
    assert_eq!(DroneModels::Big2.get_hitbox(), Vec2i { x: 24_000, y: 8_000 });
    assert_eq!(DroneModels::Simple2.get_offset(), Vec2i { x: 0, y: 5_000 });
    assert_eq!(DroneModels::Big1.package_offset(), Vec2i { x: 8_000, y: -4_000 });
}

#[test]
fn palette_from_index() {
    assert_eq!(Palette::from_index(0), Palette::A);
    assert_eq!(Palette::from_index(10), Palette::K);
    assert_eq!(Palette::from_index(15), Palette::P);
    assert_eq!(Palette::from_index(16), Palette::Transparent);
    assert_eq!(Palette::from_index(255), Palette::Transparent);
}
