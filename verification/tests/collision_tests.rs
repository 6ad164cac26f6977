//! Collision classification and single-hit arbitration.

use sabotage_core::collision::{collide, BodyType, Collider, HitBox, Invincible};
use sabotage_core::path::Vec2i;

fn hitbox(body_type: BodyType, single_hit: bool) -> HitBox {
    HitBox {
        body_type,
        width: 4_000,
        height: 4_000,
        offset: Vec2i { x: 0, y: 0 },
        single_hit,
    }
}

fn collider(body_type: BodyType, single_hit: bool, x: i64, y: i64, id: u64) -> Collider {
    Collider { hitbox: hitbox(body_type, single_hit), pos: Vec2i { x, y }, id }
}

/// Two hit-volumes of the same body type never produce a contact even when
/// overlapping; two compatible volumes produce exactly one contact when their
/// boxes overlap on both axes.
#[test]
fn same_type_never_collides_compatible_collide_once() {
    let mut consumed: Vec<u64> = Vec::new();
    let bodies = vec![
        collider(BodyType::Enemy, false, 0, 0, 1),
        collider(BodyType::Enemy, false, 1_000, 1_000, 2),
    ];
    let contacts = collide(&bodies, &mut consumed);
    assert_eq!(contacts.len(), 0);

    let mut consumed2: Vec<u64> = Vec::new();
    let bodies2 = vec![
        collider(BodyType::Enemy, false, 0, 0, 1),
        collider(BodyType::ShipShot, false, 1_000, 1_000, 2),
    ];
    let contacts2 = collide(&bodies2, &mut consumed2);
    assert_eq!(contacts2.len(), 1);
    let c = contacts2[0];
    assert_eq!(c.0 .0, BodyType::Enemy);
    assert_eq!(c.0 .1, 1);
    assert_eq!(c.1 .0, BodyType::ShipShot);
    assert_eq!(c.1 .1, 2);
}

/// Boxes that merely touch at an edge do not collide: the overlap test is
/// strict on both axes.
#[test]
fn touching_edges_do_not_collide() {
    let mut consumed: Vec<u64> = Vec::new();
    // The second box starts exactly where the first ends.
    let bodies = vec![
        collider(BodyType::Enemy, false, 0, 0, 1),
        collider(BodyType::ShipShot, false, 4_000, 0, 2),
    ];
    assert_eq!(collide(&bodies, &mut consumed).len(), 0);

    let bodies2 = vec![
        collider(BodyType::Enemy, false, 0, 0, 1),
        collider(BodyType::ShipShot, false, 3_999, 0, 2),
    ];
    assert_eq!(collide(&bodies2, &mut consumed).len(), 1);
}

/// A single-hit volume that overlaps two compatible volumes simultaneously
/// registers at most one contact, and stays consumed on later ticks.
#[test]
fn single_hit_registers_once_and_stays_consumed() {
    let mut consumed: Vec<u64> = Vec::new();
    let bodies = vec![
        collider(BodyType::ShipShot, true, 0, 0, 7),
        collider(BodyType::Enemy, false, 1_000, 0, 1),
        collider(BodyType::Enemy, false, 2_000, 0, 2),
    ];
    let contacts = collide(&bodies, &mut consumed);
    assert_eq!(contacts.len(), 1);
    assert!(consumed.contains(&7));

    // Idempotent across repeated ticks after consumption.
    let contacts2 = collide(&bodies, &mut consumed);
    assert_eq!(contacts2.len(), 0);
}

/// A multi-hit pair registers once per pass, every pass.
#[test]
fn multi_hit_pairs_register_every_pass() {
    let mut consumed: Vec<u64> = Vec::new();
    let bodies = vec![
        collider(BodyType::Enemy, false, 0, 0, 1),
        collider(BodyType::ShipShot, false, 0, 0, 2),
    ];
    assert_eq!(collide(&bodies, &mut consumed).len(), 1);
    assert_eq!(collide(&bodies, &mut consumed).len(), 1);
    assert_eq!(consumed.len(), 0);
}

/// The offset shifts a volume's box away from its owner's position.
#[test]
fn offset_moves_the_box() {
    let mut consumed: Vec<u64> = Vec::new();
    let mut a = collider(BodyType::Enemy, false, 0, 0, 1);
    a.hitbox.offset = Vec2i { x: 10_000, y: 0 };
    let b = collider(BodyType::ShipShot, false, 0, 0, 2);
    assert_eq!(collide(&vec![a, b], &mut consumed).len(), 0);
    let b2 = collider(BodyType::ShipShot, false, 10_000, 0, 2);
    assert_eq!(collide(&vec![a, b2], &mut consumed).len(), 1);
}

/// The invincibility countdown decrements once per tick and expires at zero.
#[test]
fn invincibility_counts_down() {
    let mut inv = Invincible(2);
    assert!(!inv.tick());
    assert!(!inv.tick());
    assert!(inv.tick());
    assert_eq!(inv.0, 0);
}
