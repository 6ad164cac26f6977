//! Axis-aligned collision detection between tagged hit-volumes.
//!
//! Every collidable entity carries a `HitBox`; once per tick `collide` tests
//! all pairs whose body types are compatible and emits one `Contact` event per
//! overlapping pair. A volume flagged single-hit registers at most one contact
//! for its whole lifetime: its identity enters a consumed set on its first
//! contact and is excluded from every later pair, across ticks.

use vstd::prelude::*;

use crate::path::{coord_ok, Vec2i, MAX_COORD};
use crate::sprites::{tiles_in_block, TILE, TILE_PX};

verus! {

/// Bounding size of a sprite, in thousandths of a pixel: one tile side more
/// than the furthest tile cell in each direction.
pub fn body_size(sprite: &Vec<TILE>) -> (r: Vec2i)
    requires
        tiles_in_block(sprite@),
    ensures
        sprite@.len() == 0 ==> r.x == TILE_PX && r.y == TILE_PX,
        forall|k: int|
            0 <= k < sprite@.len() ==> TILE_PX * ((#[trigger] sprite@[k]).0 + 1) <= r.x && TILE_PX
                * (sprite@[k].1 + 1) <= r.y,
        sprite@.len() > 0 ==> (exists|k: int|
            0 <= k < sprite@.len() && r.x == TILE_PX * ((#[trigger] sprite@[k]).0 + 1)) && (
        exists|k: int| 0 <= k < sprite@.len() && r.y == TILE_PX * ((#[trigger] sprite@[k]).1 + 1)),
        TILE_PX <= r.x <= 3 * TILE_PX,
        TILE_PX <= r.y <= 3 * TILE_PX,
{
    let mut mx: usize = 0;
    let mut my: usize = 0;
    let n = sprite.len();
    let mut i: usize = 0;
    while i < n
        invariant
            0 <= i <= n,
            n == sprite@.len(),
            tiles_in_block(sprite@),
            mx <= 2,
            my <= 2,
            forall|j: int| 0 <= j < i ==> (#[trigger] sprite@[j]).0 <= mx && sprite@[j].1 <= my,
            i == 0 ==> mx == 0 && my == 0,
            i > 0 ==> (exists|j: int| 0 <= j < i && (#[trigger] sprite@[j]).0 == mx) && (exists|j: int|
                0 <= j < i && (#[trigger] sprite@[j]).1 == my),
        decreases n - i,
    {
        let (x, y, _, _, _, _, _) = sprite[i];
        if i == 0 || x > mx {
            mx = x;
        }
        if i == 0 || y > my {
            my = y;
        }
        proof {
            if sprite@[i as int].0 != mx {
                let j = choose|j: int| 0 <= j < i && (#[trigger] sprite@[j]).0 == mx;
                assert(0 <= j < i + 1 && sprite@[j].0 == mx);
            }
            if sprite@[i as int].1 != my {
                let j = choose|j: int| 0 <= j < i && (#[trigger] sprite@[j]).1 == my;
                assert(0 <= j < i + 1 && sprite@[j].1 == my);
            }
        }
        i = i + 1;
    }
    Vec2i { x: TILE_PX * (mx as i64 + 1), y: TILE_PX * (my as i64 + 1) }
}

/// Classification of a hit-volume, deciding which pairs may collide.
#[derive(Copy, Clone, Eq, PartialEq, Structural, Debug)]
pub enum BodyType {
    Enemy,
    ShipShot,
}

impl BodyType {
    /// Only an enemy body and a shot body collide; same-type pairs never do.
    pub open spec fn can_collide_spec(self, other: BodyType) -> bool {
        ||| (self is Enemy && other is ShipShot)
        ||| (self is ShipShot && other is Enemy)
    }

    pub fn can_collide(&self, other: &BodyType) -> (r: bool)
        ensures
            r == self.can_collide_spec(*other),
    {
        match (self, other) {
            (BodyType::Enemy, BodyType::ShipShot) | (BodyType::ShipShot, BodyType::Enemy) => true,
            _ => false,
        }
    }
}

/// Takes an entity into account for collision detection. The box's reference
/// corner is the owner's position plus `offset`; `width` and `height` are its
/// extents, in thousandths of a pixel.
#[derive(Copy, Clone, Eq, PartialEq, Structural, Debug)]
pub struct HitBox {
    pub body_type: BodyType,
    pub width: i64,
    pub height: i64,
    pub offset: Vec2i,
    /// The volume may register one contact over its whole lifetime.
    pub single_hit: bool,
}

/// A hit-volume together with its owner's position and identity, as gathered
/// for one collision pass.
#[derive(Copy, Clone, Eq, PartialEq, Structural, Debug)]
pub struct Collider {
    pub hitbox: HitBox,
    pub pos: Vec2i,
    pub id: u64,
}

/// One side of a contact: a body's classification and identity.
#[derive(Copy, Clone, Eq, PartialEq, Structural, Debug)]
pub struct BodyRef(pub BodyType, pub u64);

/// A contact event: the two colliding bodies' classifications and identities.
#[derive(Copy, Clone, Eq, PartialEq, Structural, Debug)]
pub struct Contact(pub BodyRef, pub BodyRef);

/// Excludes the entity from collision detection while the countdown is
/// positive; it decrements once per tick.
#[derive(Copy, Clone, Eq, PartialEq, Structural, Debug)]
pub struct Invincible(pub usize);

impl Invincible {
    /// One tick of the invincibility countdown: at zero the window is over
    /// and the entity becomes collidable again, otherwise it decrements.
    pub fn tick(&mut self) -> (expired: bool)
        ensures
            expired <==> old(self).0 == 0,
            !expired ==> final(self).0 == old(self).0 - 1,
            expired ==> final(self).0 == old(self).0,
    {
        if self.0 == 0 {
            true
        } else {
            self.0 = self.0 - 1;
            false
        }
    }
}

/// One tick over all invincibility windows: an expired window is removed and
/// its entity becomes collidable again; every other countdown decrements.
#[verifier::loop_isolation(false)]
pub fn update_invincible(invincible: &mut Vec<(u64, Invincible)>)
    ensures
        final(invincible)@ == old(invincible)@.filter(|e: (u64, Invincible)| e.1.0 > 0)
            .map_values(|e: (u64, Invincible)| (e.0, Invincible((e.1.0 - 1) as usize))),
{
    let ghost before = invincible@;
    let ghost pred = (|e: (u64, Invincible)| e.1.0 > 0);
    let ghost dec = (|e: (u64, Invincible)| (e.0, Invincible((e.1.0 - 1) as usize)));
    let n = invincible.len();
    let mut kept: Vec<(u64, Invincible)> = Vec::new();
    let mut i: usize = 0;
    proof {
        reveal(Seq::filter);
        assert(before.take(0int).filter(pred).map_values(dec) =~= Seq::<(u64, Invincible)>::empty());
    }
    while i < n
        invariant
            0 <= i <= n,
            kept@ == before.take(i as int).filter(pred).map_values(dec),
        decreases n - i,
    {
        let (id, mut inv) = invincible[i];
        proof {
            reveal(Seq::filter);
            let t1 = before.take(i as int + 1);
            assert(t1.drop_last() =~= before.take(i as int));
            assert(t1.last() == before[i as int]);
            assert(t1.filter(pred) == if pred(before[i as int]) {
                before.take(i as int).filter(pred).push(before[i as int])
            } else {
                before.take(i as int).filter(pred)
            });
            if pred(before[i as int]) {
                assert(t1.filter(pred).map_values(dec) =~= before.take(i as int).filter(
                    pred,
                ).map_values(dec).push(dec(before[i as int])));
            }
        }
        if !inv.tick() {
            kept.push((id, inv));
        }
        i = i + 1;
    }
    proof {
        assert(before.take(n as int) =~= before);
    }
    *invincible = kept;
}

pub open spec fn hitbox_ok(b: HitBox) -> bool {
    &&& 0 <= b.width <= MAX_COORD
    &&& 0 <= b.height <= MAX_COORD
    &&& coord_ok(b.offset)
}

pub open spec fn collider_ok(c: Collider) -> bool {
    &&& hitbox_ok(c.hitbox)
    &&& coord_ok(c.pos)
}

/// Strict axis-aligned box overlap: the boxes overlap on both axes; boxes
/// that merely touch at an edge do not collide.
pub open spec fn boxes_overlap(b1: HitBox, p1: Vec2i, b2: HitBox, p2: Vec2i) -> bool {
    let min1x = p1.x + b1.offset.x;
    let min1y = p1.y + b1.offset.y;
    let min2x = p2.x + b2.offset.x;
    let min2y = p2.y + b2.offset.y;
    &&& min1x < min2x + b2.width
    &&& min2x < min1x + b1.width
    &&& min1y < min2y + b2.height
    &&& min2y < min1y + b1.height
}

/// The bodies at `i` and `j` are compatible and their boxes overlap.
pub open spec fn pair_qualifies(bodies: Seq<Collider>, i: int, j: int) -> bool {
    &&& bodies[i].hitbox.body_type.can_collide_spec(bodies[j].hitbox.body_type)
    &&& boxes_overlap(bodies[i].hitbox, bodies[i].pos, bodies[j].hitbox, bodies[j].pos)
}

/// The contact event emitted for the pair `(i, j)`.
pub open spec fn contact_of(bodies: Seq<Collider>, i: int, j: int) -> Contact {
    Contact(
        BodyRef(bodies[i].hitbox.body_type, bodies[i].id),
        BodyRef(bodies[j].hitbox.body_type, bodies[j].id),
    )
}

/// The contact names the identity `id`.
pub open spec fn involves(c: Contact, id: u64) -> bool {
    c.0.1 == id || c.1.1 == id
}

pub open spec fn all_colliders_ok(bodies: Seq<Collider>) -> bool {
    forall|i: int| 0 <= i < bodies.len() ==> collider_ok(#[trigger] bodies[i])
}

pub open spec fn distinct_ids(bodies: Seq<Collider>) -> bool {
    forall|i: int, j: int|
        0 <= i < j < bodies.len() ==> (#[trigger] bodies[i].id) != (#[trigger] bodies[j].id)
}

/// Everything one collision pass promises of its emitted contacts and of the
/// consumed set it maintains.
pub open spec fn collide_post(
    bodies: Seq<Collider>,
    consumed0: Seq<u64>,
    consumed1: Seq<u64>,
    contacts: Seq<Contact>,
) -> bool {
    // Every contact comes from a compatible overlapping pair.
    &&& forall|k: int|
        0 <= k < contacts.len() ==> exists|i: int, j: int|
            0 <= i < j < bodies.len() && pair_qualifies(bodies, i, j) && #[trigger] contacts[k]
                == contact_of(bodies, i, j)
    // A qualifying pair of two multi-hit volumes always registers its contact.
    &&& forall|i: int, j: int|
        0 <= i < j < bodies.len() && #[trigger] pair_qualifies(bodies, i, j)
            && !bodies[i].hitbox.single_hit && !bodies[j].hitbox.single_hit ==> contacts.contains(
            contact_of(bodies, i, j),
        )
    // A qualifying pair is registered unless a single-hit participant was
    // consumed, in this pass or before it.
    &&& forall|i: int, j: int|
        0 <= i < j < bodies.len() && #[trigger] pair_qualifies(bodies, i, j) ==> {
            ||| contacts.contains(contact_of(bodies, i, j))
            ||| (bodies[i].hitbox.single_hit && consumed1.contains(bodies[i].id))
            ||| (bodies[j].hitbox.single_hit && consumed1.contains(bodies[j].id))
        }
    // No pair registers twice.
    &&& forall|k1: int, k2: int|
        0 <= k1 < k2 < contacts.len() ==> #[trigger] contacts[k1] != #[trigger] contacts[k2]
    // A single-hit volume registers at most one contact in the pass.
    &&& forall|i: int, k1: int, k2: int|
        0 <= i < bodies.len() && bodies[i].hitbox.single_hit && 0 <= k1 < k2 < contacts.len()
            ==> !(#[trigger] involves(contacts[k1], bodies[i].id) && #[trigger] involves(
            contacts[k2],
            bodies[i].id,
        ))
    // A single-hit volume consumed before the pass registers nothing.
    &&& forall|i: int, k: int|
        0 <= i < bodies.len() && bodies[i].hitbox.single_hit && consumed0.contains(bodies[i].id)
            && 0 <= k < contacts.len() ==> !(#[trigger] involves(contacts[k], bodies[i].id))
    // The consumed set only grows, and only by single-hit participants of
    // emitted contacts: nothing is consumed without its contact.
    &&& forall|id: u64| consumed0.contains(id) ==> consumed1.contains(id)
    &&& forall|id: u64|
        consumed1.contains(id) ==> consumed0.contains(id) || exists|i: int|
            0 <= i < bodies.len() && (#[trigger] bodies[i]).hitbox.single_hit && bodies[i].id == id
    &&& forall|id: u64|
        #[trigger] consumed1.contains(id) ==> consumed0.contains(id) || exists|k: int|
            0 <= k < contacts.len() && involves(#[trigger] contacts[k], id)
    // A single-hit volume that registered a contact is consumed afterwards.
    &&& forall|i: int, k: int|
        0 <= i < bodies.len() && bodies[i].hitbox.single_hit && 0 <= k < contacts.len()
            && #[trigger] involves(contacts[k], bodies[i].id) ==> consumed1.contains(bodies[i].id)
}

/// One collision pass over all active hit-volumes (entities currently
/// invincible are excluded by the caller). Emits one contact per qualifying
/// pair, subject to single-hit arbitration through the persistent consumed
/// set.
pub fn collide(bodies: &Vec<Collider>, consumed: &mut Vec<u64>) -> (contacts: Vec<Contact>)
    requires
        all_colliders_ok(bodies@),
        distinct_ids(bodies@),
    ensures
        collide_post(bodies@, old(consumed)@, final(consumed)@, contacts@),
{
    let ghost bs = bodies@;
    let ghost consumed0 = consumed@;
    let mut contacts: Vec<Contact> = Vec::new();
    let n = bodies.len();
    let mut b1: usize = 0;
    while b1 < n
        invariant
            bodies@ == bs,
            n == bs.len(),
            0 <= b1 <= n,
            all_colliders_ok(bs),
            distinct_ids(bs),
            collide_inv(bs, consumed0, consumed@, contacts@, b1 as int, b1 as int + 1),
        decreases n - b1,
    {
        let mut b2: usize = b1 + 1;
        while b2 < n
            invariant
                bodies@ == bs,
                n == bs.len(),
                0 <= b1 < n,
                b1 < b2 <= n,
                all_colliders_ok(bs),
                distinct_ids(bs),
                collide_inv(bs, consumed0, consumed@, contacts@, b1 as int, b2 as int),
            decreases n - b2,
        {
            let body1 = bodies[b1];
            let body2 = bodies[b2];
            let ghost pre_consumed = consumed@;
            let ghost pre_contacts = contacts@;

            if body1.hitbox.body_type.can_collide(&body2.hitbox.body_type)
                && overlap(&body1.hitbox, body1.pos, &body2.hitbox, body2.pos) {
                let free1 = !body1.hitbox.single_hit || !contains_id(consumed, body1.id);
                let free2 = !body2.hitbox.single_hit || !contains_id(consumed, body2.id);
                if free1 && free2 {
                    if body1.hitbox.single_hit {
                        consumed.push(body1.id);
                    }
                    let ghost mid_consumed = consumed@;
                    proof {
                        assert forall|id: u64|
                            #[trigger] mid_consumed.contains(id) <==> pre_consumed.contains(id) || (
                            bs[b1 as int].hitbox.single_hit && id == bs[b1 as int].id) by {
                            if bs[b1 as int].hitbox.single_hit {
                                if pre_consumed.contains(id) {
                                    let k = choose|k: int|
                                        0 <= k < pre_consumed.len() && pre_consumed[k] == id;
                                    assert(mid_consumed[k] == id);
                                }
                                assert(mid_consumed[pre_consumed.len() as int] == bs[b1 as int].id);
                                if mid_consumed.contains(id) {
                                    let k = choose|k: int|
                                        0 <= k < mid_consumed.len() && mid_consumed[k] == id;
                                    if k < pre_consumed.len() {
                                        assert(pre_consumed[k] == id);
                                    }
                                }
                            }
                        }
                    }
                    if body2.hitbox.single_hit {
                        consumed.push(body2.id);
                    }
                    proof {
                        assert forall|id: u64|
                            #[trigger] consumed@.contains(id) <==> mid_consumed.contains(id) || (
                            bs[b2 as int].hitbox.single_hit && id == bs[b2 as int].id) by {
                            if bs[b2 as int].hitbox.single_hit {
                                if mid_consumed.contains(id) {
                                    let k = choose|k: int|
                                        0 <= k < mid_consumed.len() && mid_consumed[k] == id;
                                    assert(consumed@[k] == id);
                                }
                                assert(consumed@[mid_consumed.len() as int] == bs[b2 as int].id);
                                if consumed@.contains(id) {
                                    let k = choose|k: int|
                                        0 <= k < consumed@.len() && consumed@[k] == id;
                                    if k < mid_consumed.len() {
                                        assert(mid_consumed[k] == id);
                                    }
                                }
                            }
                        }
                    }
                    contacts.push(
                        Contact(
                            BodyRef(body1.hitbox.body_type, body1.id),
                            BodyRef(body2.hitbox.body_type, body2.id),
                        ),
                    );
                    proof {
                        lemma_collide_step_emit(
                            bs,
                            consumed0,
                            pre_consumed,
                            consumed@,
                            pre_contacts,
                            contacts@,
                            b1 as int,
                            b2 as int,
                        );
                    }
                } else {
                    proof {
                        lemma_collide_step_skip(
                            bs,
                            consumed0,
                            consumed@,
                            contacts@,
                            b1 as int,
                            b2 as int,
                        );
                    }
                }
            } else {
                proof {
                    lemma_collide_step_nopair(
                        bs,
                        consumed0,
                        consumed@,
                        contacts@,
                        b1 as int,
                        b2 as int,
                    );
                }
            }
            b2 = b2 + 1;
        }
        b1 = b1 + 1;
        proof {
            lemma_collide_row_done(bs, consumed0, consumed@, contacts@, b1 as int);
        }
    }
    contacts
}

/// The pair `(i, j)` has already been examined when the scan stands at
/// `(b1, b2)`.
pub open spec fn pair_done(i: int, j: int, b1: int, b2: int) -> bool {
    i < j && (i < b1 || (i == b1 && j < b2))
}

/// The loop invariant of the collision scan: `collide_post` restricted to the
/// pairs already examined.
pub open spec fn collide_inv(
    bodies: Seq<Collider>,
    consumed0: Seq<u64>,
    consumed_now: Seq<u64>,
    contacts: Seq<Contact>,
    b1: int,
    b2: int,
) -> bool {
    // Every contact comes from an examined qualifying pair.
    &&& forall|k: int|
        0 <= k < contacts.len() ==> exists|i: int, j: int|
            0 <= i < j < bodies.len() && pair_done(i, j, b1, b2) && pair_qualifies(bodies, i, j)
                && #[trigger] contacts[k] == contact_of(bodies, i, j)
    // Completeness over examined pairs, multi-hit case.
    &&& forall|i: int, j: int|
        0 <= i < j < bodies.len() && pair_done(i, j, b1, b2) && #[trigger] pair_qualifies(
            bodies,
            i,
            j,
        ) && !bodies[i].hitbox.single_hit && !bodies[j].hitbox.single_hit ==> contacts.contains(
            contact_of(bodies, i, j),
        )
    // Completeness over examined pairs, modulo single-hit consumption.
    &&& forall|i: int, j: int|
        0 <= i < j < bodies.len() && pair_done(i, j, b1, b2) && #[trigger] pair_qualifies(
            bodies,
            i,
            j,
        ) ==> {
            ||| contacts.contains(contact_of(bodies, i, j))
            ||| (bodies[i].hitbox.single_hit && consumed_now.contains(bodies[i].id))
            ||| (bodies[j].hitbox.single_hit && consumed_now.contains(bodies[j].id))
        }
    // No duplicates.
    &&& forall|k1: int, k2: int|
        0 <= k1 < k2 < contacts.len() ==> #[trigger] contacts[k1] != #[trigger] contacts[k2]
    // An unconsumed single-hit volume has no contact yet.
    &&& forall|i: int, k: int|
        0 <= i < bodies.len() && bodies[i].hitbox.single_hit && !consumed_now.contains(
            bodies[i].id,
        ) && 0 <= k < contacts.len() ==> !(#[trigger] involves(contacts[k], bodies[i].id))
    // A single-hit volume has at most one contact.
    &&& forall|i: int, k1: int, k2: int|
        0 <= i < bodies.len() && bodies[i].hitbox.single_hit && 0 <= k1 < k2 < contacts.len()
            ==> !(#[trigger] involves(contacts[k1], bodies[i].id) && #[trigger] involves(
            contacts[k2],
            bodies[i].id,
        ))
    // A single-hit volume consumed before the pass has no contact.
    &&& forall|i: int, k: int|
        0 <= i < bodies.len() && bodies[i].hitbox.single_hit && consumed0.contains(bodies[i].id)
            && 0 <= k < contacts.len() ==> !(#[trigger] involves(contacts[k], bodies[i].id))
    // Consumed-set growth.
    &&& forall|id: u64| consumed0.contains(id) ==> consumed_now.contains(id)
    &&& forall|id: u64|
        consumed_now.contains(id) ==> consumed0.contains(id) || exists|i: int|
            0 <= i < bodies.len() && (#[trigger] bodies[i]).hitbox.single_hit && bodies[i].id == id
    &&& forall|id: u64|
        #[trigger] consumed_now.contains(id) ==> consumed0.contains(id) || exists|k: int|
            0 <= k < contacts.len() && involves(#[trigger] contacts[k], id)
    // A single-hit volume with a contact is consumed.
    &&& forall|i: int, k: int|
        0 <= i < bodies.len() && bodies[i].hitbox.single_hit && 0 <= k < contacts.len()
            && #[trigger] involves(contacts[k], bodies[i].id) ==> consumed_now.contains(
            bodies[i].id,
        )
}

proof fn lemma_collide_step_emit(
    bodies: Seq<Collider>,
    consumed0: Seq<u64>,
    pre_consumed: Seq<u64>,
    consumed_now: Seq<u64>,
    pre_contacts: Seq<Contact>,
    contacts: Seq<Contact>,
    b1: int,
    b2: int,
)
    requires
        all_colliders_ok(bodies),
        distinct_ids(bodies),
        0 <= b1 < b2 < bodies.len(),
        collide_inv(bodies, consumed0, pre_consumed, pre_contacts, b1, b2),
        pair_qualifies(bodies, b1, b2),
        bodies[b1].hitbox.single_hit ==> !pre_consumed.contains(bodies[b1].id),
        bodies[b2].hitbox.single_hit ==> !pre_consumed.contains(bodies[b2].id),
        forall|id: u64|
            #[trigger] consumed_now.contains(id) <==> pre_consumed.contains(id) || (
            bodies[b1].hitbox.single_hit && id == bodies[b1].id) || (bodies[b2].hitbox.single_hit
                && id == bodies[b2].id),
        contacts =~= pre_contacts.push(contact_of(bodies, b1, b2)),
    ensures
        collide_inv(bodies, consumed0, consumed_now, contacts, b1, b2 + 1),
{
    let c = contact_of(bodies, b1, b2);
    let k_new = contacts.len() - 1;
    assert(contacts[k_new] == c);

    // Soundness: the new contact is the examined pair (b1, b2).
    assert forall|k: int| 0 <= k < contacts.len() implies exists|i: int, j: int|
        0 <= i < j < bodies.len() && pair_done(i, j, b1, b2 + 1) && pair_qualifies(bodies, i, j)
            && #[trigger] contacts[k] == contact_of(bodies, i, j) by {
        if k < k_new {
            let (i, j): (int, int) = choose|i: int, j: int|
                0 <= i < j < bodies.len() && pair_done(i, j, b1, b2) && pair_qualifies(bodies, i, j)
                    && pre_contacts[k] == contact_of(bodies, i, j);
            assert(pair_done(i, j, b1, b2 + 1));
            assert(contacts[k] == contact_of(bodies, i, j));
        } else {
            assert(pair_done(b1, b2, b1, b2 + 1));
            assert(contacts[k] == contact_of(bodies, b1, b2));
        }
    }

    // An old contact never equals the new one: its pair was examined earlier,
    // so one of its ids differs.
    assert forall|k: int| 0 <= k < k_new implies contacts[k] != c by {
        let (i, j): (int, int) = choose|i: int, j: int|
            0 <= i < j < bodies.len() && pair_done(i, j, b1, b2) && pair_qualifies(bodies, i, j)
                && pre_contacts[k] == contact_of(bodies, i, j);
        assert(i != b1 || j != b2);
        if i != b1 {
            assert(bodies[i].id != bodies[b1].id);
        } else {
            assert(bodies[j].id != bodies[b2].id);
        }
    }

    // An old contact never involves a single-hit participant of the new one:
    // that participant was unconsumed before this step.
    assert forall|i: int, k: int|
        0 <= i < bodies.len() && bodies[i].hitbox.single_hit && 0 <= k < k_new && involves(
            contacts[k],
            bodies[i].id,
        ) implies consumed_now.contains(bodies[i].id) && !involves(c, bodies[i].id) by {
        assert(involves(pre_contacts[k], bodies[i].id));
        assert(pre_consumed.contains(bodies[i].id));
        assert(consumed_now.contains(bodies[i].id));
        if involves(c, bodies[i].id) {
            if bodies[i].id == bodies[b1].id {
                if i != b1 {
                    assert(false);
                }
                assert(!pre_consumed.contains(bodies[b1].id));
                assert(false);
            } else {
                if i != b2 {
                    assert(false);
                }
                assert(!pre_consumed.contains(bodies[b2].id));
                assert(false);
            }
        }
    }

    // Membership in the grown contact list.
    assert forall|c0: Contact| pre_contacts.contains(c0) implies contacts.contains(c0) by {
        let k = choose|k: int| 0 <= k < pre_contacts.len() && pre_contacts[k] == c0;
        assert(contacts[k] == c0);
    }
    assert(contacts.contains(c));

    // A single-hit participant of the new contact stands at index b1 or b2.
    assert forall|i: int|
        0 <= i < bodies.len() && bodies[i].hitbox.single_hit && involves(
            c,
            bodies[i].id,
        ) implies consumed_now.contains(bodies[i].id) by {
        if bodies[i].id == bodies[b1].id {
            if i != b1 {
                assert(false);
            }
        } else {
            if i != b2 {
                assert(false);
            }
        }
    }

    // A newly consumed id is a participant of the new contact.
    assert forall|id: u64| #[trigger] consumed_now.contains(id) implies pre_consumed.contains(id)
        || involves(c, id) by {}
    assert forall|id: u64|
        #[trigger] consumed_now.contains(id) implies consumed0.contains(id) || exists|k: int|
        0 <= k < contacts.len() && involves(#[trigger] contacts[k], id) by {
        if pre_consumed.contains(id) {
            if !consumed0.contains(id) {
                let k = choose|k: int|
                    0 <= k < pre_contacts.len() && involves(#[trigger] pre_contacts[k], id);
                assert(involves(contacts[k], id));
            }
        } else {
            assert(involves(contacts[k_new], id));
        }
    }

    // Completeness over the newly examined range.
    assert forall|i: int, j: int|
        0 <= i < j < bodies.len() && pair_done(i, j, b1, b2 + 1) && #[trigger] pair_qualifies(
            bodies,
            i,
            j,
        ) implies {
        ||| contacts.contains(contact_of(bodies, i, j))
        ||| (bodies[i].hitbox.single_hit && consumed_now.contains(bodies[i].id))
        ||| (bodies[j].hitbox.single_hit && consumed_now.contains(bodies[j].id))
    } by {
        if i == b1 && j == b2 {
            assert(contacts.contains(c));
        } else {
            assert(pair_done(i, j, b1, b2));
        }
    }
}

proof fn lemma_collide_step_skip(
    bodies: Seq<Collider>,
    consumed0: Seq<u64>,
    consumed_now: Seq<u64>,
    contacts: Seq<Contact>,
    b1: int,
    b2: int,
)
    requires
        all_colliders_ok(bodies),
        distinct_ids(bodies),
        0 <= b1 < b2 < bodies.len(),
        collide_inv(bodies, consumed0, consumed_now, contacts, b1, b2),
        pair_qualifies(bodies, b1, b2),
        (bodies[b1].hitbox.single_hit && consumed_now.contains(bodies[b1].id)) || (
        bodies[b2].hitbox.single_hit && consumed_now.contains(bodies[b2].id)),
    ensures
        collide_inv(bodies, consumed0, consumed_now, contacts, b1, b2 + 1),
{
    assert forall|k: int| 0 <= k < contacts.len() implies exists|i: int, j: int|
        0 <= i < j < bodies.len() && pair_done(i, j, b1, b2 + 1) && pair_qualifies(bodies, i, j)
            && #[trigger] contacts[k] == contact_of(bodies, i, j) by {
        let (i, j): (int, int) = choose|i: int, j: int|
            0 <= i < j < bodies.len() && pair_done(i, j, b1, b2) && pair_qualifies(bodies, i, j)
                && contacts[k] == contact_of(bodies, i, j);
        assert(pair_done(i, j, b1, b2 + 1));
    }
}

proof fn lemma_collide_step_nopair(
    bodies: Seq<Collider>,
    consumed0: Seq<u64>,
    consumed_now: Seq<u64>,
    contacts: Seq<Contact>,
    b1: int,
    b2: int,
)
    requires
        all_colliders_ok(bodies),
        distinct_ids(bodies),
        0 <= b1 < b2 < bodies.len(),
        collide_inv(bodies, consumed0, consumed_now, contacts, b1, b2),
        !pair_qualifies(bodies, b1, b2),
    ensures
        collide_inv(bodies, consumed0, consumed_now, contacts, b1, b2 + 1),
{
    assert forall|k: int| 0 <= k < contacts.len() implies exists|i: int, j: int|
        0 <= i < j < bodies.len() && pair_done(i, j, b1, b2 + 1) && pair_qualifies(bodies, i, j)
            && #[trigger] contacts[k] == contact_of(bodies, i, j) by {
        let (i, j): (int, int) = choose|i: int, j: int|
            0 <= i < j < bodies.len() && pair_done(i, j, b1, b2) && pair_qualifies(bodies, i, j)
                && contacts[k] == contact_of(bodies, i, j);
        assert(pair_done(i, j, b1, b2 + 1));
    }
}

proof fn lemma_collide_row_done(
    bodies: Seq<Collider>,
    consumed0: Seq<u64>,
    consumed_now: Seq<u64>,
    contacts: Seq<Contact>,
    b1: int,
)
    requires
        0 < b1 <= bodies.len(),
        collide_inv(bodies, consumed0, consumed_now, contacts, b1 - 1, bodies.len() as int),
    ensures
        collide_inv(bodies, consumed0, consumed_now, contacts, b1, b1 + 1),
{
    assert forall|i: int, j: int| #[trigger] pair_done(i, j, b1 - 1, bodies.len() as int) implies
        pair_done(i, j, b1, b1 + 1) by {}
    assert forall|i: int, j: int|
        0 <= i < j < bodies.len() && #[trigger] pair_done(i, j, b1, b1 + 1) implies pair_done(
        i,
        j,
        b1 - 1,
        bodies.len() as int,
    ) by {}
    assert forall|k: int| 0 <= k < contacts.len() implies exists|i: int, j: int|
        0 <= i < j < bodies.len() && pair_done(i, j, b1, b1 + 1) && pair_qualifies(bodies, i, j)
            && #[trigger] contacts[k] == contact_of(bodies, i, j) by {
        let (i, j): (int, int) = choose|i: int, j: int|
            0 <= i < j < bodies.len() && pair_done(i, j, b1 - 1, bodies.len() as int)
                && pair_qualifies(bodies, i, j) && contacts[k] == contact_of(bodies, i, j);
        assert(pair_done(i, j, b1, b1 + 1));
    }
}

/// Strict overlap test between two placed boxes.
fn overlap(b1: &HitBox, p1: Vec2i, b2: &HitBox, p2: Vec2i) -> (r: bool)
    requires
        hitbox_ok(*b1),
        hitbox_ok(*b2),
        coord_ok(p1),
        coord_ok(p2),
    ensures
        r == boxes_overlap(*b1, p1, *b2, p2),
{
    let min1x = p1.x + b1.offset.x;
    let min1y = p1.y + b1.offset.y;
    let min2x = p2.x + b2.offset.x;
    let min2y = p2.y + b2.offset.y;
    min1x < min2x + b2.width && min2x < min1x + b1.width && min1y < min2y + b2.height && min2y
        < min1y + b1.height
}

/// Linear membership scan of the consumed-identity set.
fn contains_id(ids: &Vec<u64>, id: u64) -> (r: bool)
    ensures
        r == ids@.contains(id),
{
    let n = ids.len();
    let mut i: usize = 0;
    while i < n
        invariant
            0 <= i <= n,
            n == ids@.len(),
            forall|j: int| 0 <= j < i ==> ids@[j] != id,
        decreases n - i,
    {
        if ids[i] == id {
            return true;
        }
        i = i + 1;
    }
    false
}

/// Two hit-volumes of the same body type never produce a contact: every
/// emitted contact names one enemy body and one shot body.
pub proof fn lemma_same_type_never_contact(
    bodies: Seq<Collider>,
    consumed0: Seq<u64>,
    consumed1: Seq<u64>,
    contacts: Seq<Contact>,
    k: int,
)
    requires
        collide_post(bodies, consumed0, consumed1, contacts),
        0 <= k < contacts.len(),
    ensures
        contacts[k].0.0 != contacts[k].1.0,
{
    let (i, j): (int, int) = choose|i: int, j: int|
        0 <= i < j < bodies.len() && pair_qualifies(bodies, i, j) && contacts[k] == contact_of(
            bodies,
            i,
            j,
        );
    assert(bodies[i].hitbox.body_type.can_collide_spec(bodies[j].hitbox.body_type));
}

/// A compatible overlapping pair of multi-hit volumes registers exactly one
/// contact in the pass: its event is emitted, and never twice.
pub proof fn lemma_compatible_pair_exactly_one(
    bodies: Seq<Collider>,
    consumed0: Seq<u64>,
    consumed1: Seq<u64>,
    contacts: Seq<Contact>,
    i: int,
    j: int,
)
    requires
        collide_post(bodies, consumed0, consumed1, contacts),
        0 <= i < j < bodies.len(),
        pair_qualifies(bodies, i, j),
        !bodies[i].hitbox.single_hit,
        !bodies[j].hitbox.single_hit,
    ensures
        exists|k: int| 0 <= k < contacts.len() && #[trigger] contacts[k] == contact_of(
            bodies,
            i,
            j,
        ),
        forall|k1: int, k2: int|
            0 <= k1 < k2 < contacts.len() ==> !(#[trigger] contacts[k1] == contact_of(bodies, i, j)
                && #[trigger] contacts[k2] == contact_of(bodies, i, j)),
{
    assert(contacts.contains(contact_of(bodies, i, j)));
    let k = choose|k: int| 0 <= k < contacts.len() && contacts[k] == contact_of(bodies, i, j);
    assert(0 <= k < contacts.len() && contacts[k] == contact_of(bodies, i, j));
}

/// A pair whose boxes do not strictly overlap — they merely touch at an edge,
/// or are apart — registers no contact, nor does an incompatible pair.
pub proof fn lemma_no_contact_without_overlap(
    bodies: Seq<Collider>,
    consumed0: Seq<u64>,
    consumed1: Seq<u64>,
    contacts: Seq<Contact>,
    i: int,
    j: int,
)
    requires
        collide_post(bodies, consumed0, consumed1, contacts),
        distinct_ids(bodies),
        0 <= i < j < bodies.len(),
        !pair_qualifies(bodies, i, j),
    ensures
        forall|k: int| 0 <= k < contacts.len() ==> #[trigger] contacts[k] != contact_of(
            bodies,
            i,
            j,
        ),
{
    assert forall|k: int| 0 <= k < contacts.len() implies #[trigger] contacts[k] != contact_of(
        bodies,
        i,
        j,
    ) by {
        if contacts[k] == contact_of(bodies, i, j) {
            let (i2, j2): (int, int) = choose|i2: int, j2: int|
                0 <= i2 < j2 < bodies.len() && pair_qualifies(bodies, i2, j2) && contacts[k]
                    == contact_of(bodies, i2, j2);
            if i2 != i {
                assert(bodies[i2].id != bodies[i].id);
            }
            if j2 != j {
                assert(bodies[j2].id != bodies[j].id);
            }
            assert(false);
        }
    }
}

/// Single-hit arbitration across ticks: once a single-hit volume has
/// registered a contact, a later pass that starts from the consumed set the
/// first pass produced registers nothing more for it.
pub proof fn lemma_single_hit_idempotent(
    bodies1: Seq<Collider>,
    consumed0: Seq<u64>,
    consumed1: Seq<u64>,
    contacts1: Seq<Contact>,
    bodies2: Seq<Collider>,
    consumed2: Seq<u64>,
    contacts2: Seq<Contact>,
    i: int,
    k: int,
    i2: int,
)
    requires
        collide_post(bodies1, consumed0, consumed1, contacts1),
        collide_post(bodies2, consumed1, consumed2, contacts2),
        0 <= i < bodies1.len(),
        bodies1[i].hitbox.single_hit,
        0 <= k < contacts1.len(),
        involves(contacts1[k], bodies1[i].id),
        0 <= i2 < bodies2.len(),
        bodies2[i2].id == bodies1[i].id,
        bodies2[i2].hitbox.single_hit,
    ensures
        forall|k2: int| 0 <= k2 < contacts2.len() ==> !(#[trigger] involves(
            contacts2[k2],
            bodies2[i2].id,
        )),
{
    assert(consumed1.contains(bodies1[i].id));
}

} // verus!
