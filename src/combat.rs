use vstd::prelude::*;

use crate::asteroids::{Asteroid, Shard};
use crate::basics::{Entity, Hitpoints};
use crate::geometry::{aabb_overlap, boxes_overlap, dist_sq, distance_squared};
use crate::ship::{AppState, Spaceship};
use crate::weapons::Bullet;

verus! {

/// Damage a ship takes from ramming an asteroid.
pub const SHIP_COLLISION_DAMAGE: u32 = 10;

/// Squared distance under which the ship collects a shard.
pub const SHARD_PICKUP_DIST_SQ: u128 = 400;

/// Score for each shard collected.
pub const SHARD_SCORE: u32 = 10;

/// `hp` less `total` damage, stopping at zero.
pub open spec fn worn(hp: u32, total: int) -> u32 {
    if hp >= total {
        (hp - total) as u32
    } else {
        0
    }
}

/// An asteroid that can still be hit: it has hitpoints and a collider.
pub open spec fn is_live(a: Asteroid) -> bool {
    a.hitpoints.is_some() && a.collider.is_some()
}

/// The bullet's box overlaps the live asteroid's box.
pub open spec fn bullet_meets(a: Asteroid, b: Bullet) -> bool {
    is_live(a) && boxes_overlap(a.pos, a.collider.unwrap(), b.pos, b.collider)
}

/// The bullet is spent on asteroid `i`: it had not hit anything before, it
/// meets asteroid `i`, and it meets no asteroid before `i`.
pub open spec fn bullet_consumed(b: Bullet, asteroids: Seq<Asteroid>, i: int) -> bool {
    !b.already_hit && bullet_meets(asteroids[i], b) && forall|m: int|
        0 <= m < i ==> !#[trigger] bullet_meets(asteroids[m], b)
}

/// The bullet meets some live asteroid.
pub open spec fn bullet_meets_any(b: Bullet, asteroids: Seq<Asteroid>) -> bool {
    exists|m: int| 0 <= m < asteroids.len() && #[trigger] bullet_meets(asteroids[m], b)
}

/// A bullet after the pass: marked as spent once it meets an asteroid.
pub open spec fn bullet_after(b: Bullet, asteroids: Seq<Asteroid>) -> Bullet {
    Bullet { already_hit: b.already_hit || bullet_meets_any(b, asteroids), ..b }
}

/// How many of the bullets are spent on asteroid `i`.
pub open spec fn hits_from(bullets: Seq<Bullet>, asteroids: Seq<Asteroid>, i: int) -> nat
    decreases bullets.len(),
{
    if bullets.len() == 0 {
        0
    } else {
        hits_from(bullets.drop_last(), asteroids, i) + if bullet_consumed(bullets.last(), asteroids, i) {
            1nat
        } else {
            0nat
        }
    }
}

/// The ids of the bullets spent on asteroid `i`, in order.
pub open spec fn ids_hit_by(bullets: Seq<Bullet>, asteroids: Seq<Asteroid>, i: int) -> Seq<Entity>
    decreases bullets.len(),
{
    if bullets.len() == 0 {
        Seq::empty()
    } else {
        let rest = ids_hit_by(bullets.drop_last(), asteroids, i);
        if bullet_consumed(bullets.last(), asteroids, i) {
            rest.push(bullets.last().id)
        } else {
            rest
        }
    }
}

/// The ids of the bullets spent on the first `n` asteroids: those of
/// asteroid 0 first, then those of asteroid 1, and so on.
pub open spec fn spent_ids(bullets: Seq<Bullet>, asteroids: Seq<Asteroid>, n: int) -> Seq<Entity>
    decreases n,
{
    if n <= 0 {
        Seq::empty()
    } else {
        spent_ids(bullets, asteroids, n - 1) + ids_hit_by(bullets, asteroids, n - 1)
    }
}

/// An asteroid after taking one point of damage per bullet spent on it.
pub open spec fn asteroid_after_bullets(a: Asteroid, hits: nat) -> Asteroid {
    match a.hitpoints {
        Some(hp) => Asteroid { hitpoints: Some(Hitpoints(worn(hp.0, hits as int))), ..a },
        None => a,
    }
}

/// Resolves cannon shots against asteroids. Each bullet that has not hit
/// anything yet and overlaps a live asteroid is spent on the first such
/// asteroid: it is marked as having hit, the asteroid loses one hitpoint, and
/// the bullet is queued for despawn.
#[verifier::rlimit(40)]
pub fn bullets_hit_asteroids(asteroids: &mut Vec<Asteroid>, bullets: &mut Vec<Bullet>, despawn: &mut Vec<Entity>)
    ensures
        final(asteroids)@.len() == old(asteroids)@.len(),
        forall|i: int|
            0 <= i < old(asteroids)@.len() ==> final(asteroids)@[i] == asteroid_after_bullets(
                old(asteroids)@[i],
                hits_from(old(bullets)@, old(asteroids)@, i),
            ),
        final(bullets)@.len() == old(bullets)@.len(),
        forall|j: int|
            0 <= j < old(bullets)@.len() ==> final(bullets)@[j] == bullet_after(
                old(bullets)@[j],
                old(asteroids)@,
            ),
        final(despawn)@ == old(despawn)@ + spent_ids(old(bullets)@, old(asteroids)@, old(asteroids)@.len() as int),
{
    let ghost asteroids0 = asteroids@;
    let ghost bullets0 = bullets@;
    let ghost despawn0 = despawn@;
    let mut i: usize = 0;
    while i < asteroids.len()
        invariant
            0 <= i <= asteroids@.len(),
            asteroids@.len() == asteroids0.len(),
            bullets@.len() == bullets0.len(),
            forall|m: int|
                0 <= m < i ==> asteroids@[m] == asteroid_after_bullets(
                    asteroids0[m],
                    hits_from(bullets0, asteroids0, m),
                ),
            forall|m: int| i <= m < asteroids0.len() ==> asteroids@[m] == asteroids0[m],
            forall|j: int|
                0 <= j < bullets0.len() ==> bullets@[j] == bullet_after(
                    bullets0[j],
                    asteroids0.take(i as int),
                ),
            despawn@ == despawn0 + spent_ids(bullets0, asteroids0, i as int),
        decreases asteroids0.len() - i,
    {
        let mut a = asteroids[i];
        let ghost a0 = a;
        let ghost despawn_before = despawn@;
        assert(asteroids0.take(i as int + 1).drop_last() == asteroids0.take(i as int));
        if let (Some(hp0), Some(collider)) = (a.hitpoints, a.collider) {
            let mut hp = hp0;
            let mut j: usize = 0;
            while j < bullets.len()
                invariant
                    0 <= j <= bullets@.len(),
                    i < asteroids0.len(),
                    bullets@.len() == bullets0.len(),
                    a0 == asteroids0[i as int],
                    a == a0,
                    a0.hitpoints == Some(hp0),
                    a0.collider == Some(collider),
                    hp.0 == worn(hp0.0, hits_from(bullets0.take(j as int), asteroids0, i as int) as int),
                    forall|m: int|
                        0 <= m < j ==> bullets@[m] == bullet_after(
                            bullets0[m],
                            asteroids0.take(i as int + 1),
                        ),
                    forall|m: int|
                        j <= m < bullets0.len() ==> bullets@[m] == bullet_after(
                            bullets0[m],
                            asteroids0.take(i as int),
                        ),
                    despawn@ == despawn_before + ids_hit_by(bullets0.take(j as int), asteroids0, i as int),
                decreases bullets0.len() - j,
            {
                let mut b = bullets[j];
                let ghost b0 = bullets0[j as int];
                assert(bullets0.take(j as int + 1).drop_last() == bullets0.take(j as int));
                assert(bullets0.take(j as int + 1).last() == b0);
                assert(b.pos == b0.pos && b.collider == b0.collider);
                let meets = aabb_overlap(a.pos, collider, b.pos, b.collider);
                assert(a.pos == a0.pos);
                assert(meets == boxes_overlap(a0.pos, a0.collider.unwrap(), b0.pos, b0.collider));
                assert(is_live(a0));
                assert(meets == bullet_meets(a0, b0));
                proof {
                    let pre = asteroids0.take(i as int);
                    let post = asteroids0.take(i as int + 1);
                    assert(post[i as int] == a0);
                    assert(forall|m: int| 0 <= m < i ==> pre[m] == asteroids0[m]);
                    assert(forall|m: int| 0 <= m < i ==> post[m] == asteroids0[m]);
                    if bullet_meets_any(b0, pre) {
                        let m = choose|m: int| 0 <= m < pre.len() && #[trigger] bullet_meets(pre[m], b0);
                        assert(bullet_meets(post[m], b0));
                    }
                    if meets {
                        assert(bullet_meets(post[i as int], b0));
                    }
                    if bullet_meets_any(b0, post) && !meets {
                        let m = choose|m: int| 0 <= m < post.len() && #[trigger] bullet_meets(post[m], b0);
                        if m < i {
                            assert(bullet_meets(pre[m], b0));
                        }
                    }
                    if !b0.already_hit && !bullet_meets_any(b0, pre) {
                        assert forall|m: int| 0 <= m < i implies !#[trigger] bullet_meets(asteroids0[m], b0) by {
                            assert(pre[m] == asteroids0[m]);
                        }
                    }
                    if bullet_consumed(b0, asteroids0, i as int) {
                        assert(!bullet_meets_any(b0, pre)) by {
                            if bullet_meets_any(b0, pre) {
                                let m = choose|m: int| 0 <= m < pre.len() && #[trigger] bullet_meets(pre[m], b0);
                                assert(pre[m] == asteroids0[m]);
                            }
                        }
                    }
                }
                assert(b.already_hit == (b0.already_hit || bullet_meets_any(b0, asteroids0.take(i as int))));
                assert(bullet_consumed(b0, asteroids0, i as int) == (!b.already_hit && meets));
                if !b.already_hit && meets {
                    b.already_hit = true;
                    hp.damage(1);
                    despawn.push(b.id);
                    bullets.set(j, b);
                } else {
                    bullets.set(j, b);
                }
                j += 1;
            }
            assert(bullets0.take(j as int) == bullets0);
            a.hitpoints = Some(hp);
            asteroids.set(i, a);
        } else {
            proof {
                assert forall|j: int| 0 <= j < bullets0.len() implies bullets@[j] == bullet_after(
                    bullets0[j],
                    asteroids0.take(i as int + 1),
                ) by {
                    let b0 = bullets0[j];
                    let pre = asteroids0.take(i as int);
                    let post = asteroids0.take(i as int + 1);
                    if bullet_meets_any(b0, post) {
                        let m = choose|m: int| 0 <= m < post.len() && #[trigger] bullet_meets(post[m], b0);
                        assert(post[m] == asteroids0[m]);
                        assert(m != i);
                        assert(pre[m] == asteroids0[m]);
                    }
                    if bullet_meets_any(b0, pre) {
                        let m = choose|m: int| 0 <= m < pre.len() && #[trigger] bullet_meets(pre[m], b0);
                        assert(pre[m] == asteroids0[m]);
                        assert(post[m] == asteroids0[m]);
                    }
                }
                lemma_no_hits(bullets0, asteroids0, i as int);
            }
        }
        i += 1;
    }
    assert(asteroids0.take(i as int) == asteroids0);
}

/// A dead or wrecked asteroid takes no bullet.
proof fn lemma_no_hits(bullets: Seq<Bullet>, asteroids: Seq<Asteroid>, i: int)
    requires
        0 <= i < asteroids.len(),
        !is_live(asteroids[i]),
    ensures
        hits_from(bullets, asteroids, i) == 0,
        ids_hit_by(bullets, asteroids, i) == Seq::<Entity>::empty(),
    decreases bullets.len(),
{
    if bullets.len() > 0 {
        lemma_no_hits(bullets.drop_last(), asteroids, i);
    }
}


/// The asteroid has a collider and it overlaps the ship.
pub open spec fn rams(ship: Spaceship, a: Asteroid) -> bool {
    a.collider matches Some(c) && boxes_overlap(ship.pos, ship.collider, a.pos, c)
}

/// The ids of the asteroids that ram the ship, in order.
pub open spec fn ramming_ids(ship: Spaceship, asteroids: Seq<Asteroid>) -> Seq<Entity>
    decreases asteroids.len(),
{
    if asteroids.len() == 0 {
        Seq::empty()
    } else {
        let rest = ramming_ids(ship, asteroids.drop_last());
        if rams(ship, asteroids.last()) {
            rest.push(asteroids.last().id)
        } else {
            rest
        }
    }
}

/// How many rams a ship with `hp` hitpoints survives before the last: the
/// ram that brings it to zero is the `lethal_rams(hp)`-th.
pub open spec fn lethal_rams(hp: u32) -> int {
    if hp == 0 {
        1
    } else {
        (hp + SHIP_COLLISION_DAMAGE - 1) / (SHIP_COLLISION_DAMAGE as int)
    }
}

/// How many of the rams are dealt with: all of them, or up to the lethal one.
pub open spec fn rams_handled(ship: Spaceship, asteroids: Seq<Asteroid>) -> int {
    let n = ramming_ids(ship, asteroids).len() as int;
    if n >= lethal_rams(ship.hitpoints.0) {
        lethal_rams(ship.hitpoints.0)
    } else {
        n
    }
}

proof fn lemma_ramming_prefix(ship: Spaceship, asteroids: Seq<Asteroid>, n: int)
    requires
        0 <= n <= asteroids.len(),
    ensures
        ramming_ids(ship, asteroids.take(n)).len() <= ramming_ids(ship, asteroids).len(),
        ramming_ids(ship, asteroids).take(ramming_ids(ship, asteroids.take(n)).len() as int)
            == ramming_ids(ship, asteroids.take(n)),
    decreases asteroids.len(),
{
    if n == asteroids.len() {
        assert(asteroids.take(n) == asteroids);
    } else {
        let shorter = asteroids.drop_last();
        assert(shorter.take(n) == asteroids.take(n));
        lemma_ramming_prefix(ship, shorter, n);
    }
}

/// Resolves asteroids ramming the ship. Each ramming asteroid is queued to
/// be wrecked and the ship takes ten damage; when that leaves the ship with
/// no hitpoints, the game is over and the rest of the asteroids are not looked
/// at. Returns the state to switch to, if the game ended.
pub fn asteroids_hit_ship(ship: &mut Spaceship, asteroids: &Vec<Asteroid>, wreck: &mut Vec<Entity>) -> (r: Option<AppState>)
    ensures
        r == (if ramming_ids(*old(ship), asteroids@).len() >= lethal_rams(old(ship).hitpoints.0) {
            Some(AppState::Menu)
        } else {
            None
        }),
        final(wreck)@ == old(wreck)@ + ramming_ids(*old(ship), asteroids@).take(
            rams_handled(*old(ship), asteroids@),
        ),
        *final(ship) == (Spaceship {
            hitpoints: Hitpoints(
                worn(old(ship).hitpoints.0, SHIP_COLLISION_DAMAGE * rams_handled(*old(ship), asteroids@)),
            ),
            ..*old(ship)
        }),
{
    let ghost ship0 = *ship;
    let ghost wreck0 = wreck@;
    let mut i: usize = 0;
    while i < asteroids.len()
        invariant
            0 <= i <= asteroids@.len(),
            ship0 == *old(ship),
            wreck0 == old(wreck)@,
            ship.pos == ship0.pos,
            ship.collider == ship0.collider,
            *ship == (Spaceship {
                hitpoints: Hitpoints(
                    worn(
                        ship0.hitpoints.0,
                        SHIP_COLLISION_DAMAGE * ramming_ids(ship0, asteroids@.take(i as int)).len(),
                    ),
                ),
                ..ship0
            }),
            wreck@ == wreck0 + ramming_ids(ship0, asteroids@.take(i as int)),
            ramming_ids(ship0, asteroids@.take(i as int)).len() < lethal_rams(ship0.hitpoints.0),
        decreases asteroids@.len() - i,
    {
        let a = asteroids[i];
        let ghost prefix = asteroids@.take(i as int + 1);
        assert(prefix.drop_last() == asteroids@.take(i as int));
        assert(prefix.last() == a);
        if let Some(c) = a.collider {
            if aabb_overlap(ship.pos, ship.collider, a.pos, c) {
                wreck.push(a.id);
                ship.hitpoints.damage(SHIP_COLLISION_DAMAGE);
                if ship.hitpoints.is_dead() {
                    proof {
                        lemma_ramming_prefix(ship0, asteroids@, i as int + 1);
                        let c = ramming_ids(ship0, asteroids@.take(i as int)).len() as int;
                        let hp0 = ship0.hitpoints.0 as int;
                        assert(ramming_ids(ship0, prefix).len() == c + 1);
                        assert(hp0 <= 10 * (c + 1));
                        if hp0 > 0 {
                            assert((hp0 + 9) / 10 <= c + 1) by (nonlinear_arith)
                                requires
                                    hp0 <= 10 * (c + 1),
                                    hp0 > 0,
                            ;
                        }
                        assert(c + 1 == lethal_rams(ship0.hitpoints.0));
                        assert(ramming_ids(ship0, asteroids@).len() >= c + 1);
                        assert(rams_handled(ship0, asteroids@) == c + 1);
                        assert(ramming_ids(ship0, asteroids@).take(c + 1) == ramming_ids(ship0, prefix));
                    }
                    return Some(AppState::Menu);
                }
            }
        }
        i += 1;
    }
    assert(asteroids@.take(i as int) == asteroids@);
    None
}

/// The ids of the shards within pickup distance of the ship, in order.
pub open spec fn collected_ids(ship: Spaceship, shards: Seq<Shard>) -> Seq<Entity>
    decreases shards.len(),
{
    if shards.len() == 0 {
        Seq::empty()
    } else {
        let rest = collected_ids(ship, shards.drop_last());
        if dist_sq(ship.pos, shards.last().pos) < SHARD_PICKUP_DIST_SQ {
            rest.push(shards.last().id)
        } else {
            rest
        }
    }
}

/// `score` plus `gain`, stopping at the largest score.
pub open spec fn score_plus(score: u32, gain: int) -> u32 {
    if score + gain > u32::MAX {
        u32::MAX
    } else {
        (score + gain) as u32
    }
}

/// The ship collects every shard close enough: the shard is queued for
/// despawn and the score grows by ten.
pub fn ship_eats_shards(ship: &mut Spaceship, shards: &Vec<Shard>, despawn: &mut Vec<Entity>)
    ensures
        final(despawn)@ == old(despawn)@ + collected_ids(*old(ship), shards@),
        *final(ship) == (Spaceship {
            score: score_plus(old(ship).score, SHARD_SCORE * collected_ids(*old(ship), shards@).len()),
            ..*old(ship)
        }),
{
    let ghost ship0 = *ship;
    let ghost despawn0 = despawn@;
    let mut i: usize = 0;
    while i < shards.len()
        invariant
            0 <= i <= shards@.len(),
            *ship == (Spaceship {
                score: score_plus(ship0.score, SHARD_SCORE * collected_ids(ship0, shards@.take(i as int)).len()),
                ..ship0
            }),
            despawn@ == despawn0 + collected_ids(ship0, shards@.take(i as int)),
        decreases shards@.len() - i,
    {
        let shard = shards[i];
        let ghost prefix = shards@.take(i as int + 1);
        assert(prefix.drop_last() == shards@.take(i as int));
        assert(prefix.last() == shard);
        if distance_squared(ship.pos, shard.pos) < SHARD_PICKUP_DIST_SQ {
            ship.score = ship.score.saturating_add(SHARD_SCORE);
            despawn.push(shard.id);
        }
        i += 1;
    }
    assert(shards@.take(i as int) == shards@);
}

} // verus!
