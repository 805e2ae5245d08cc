use vstd::prelude::*;

use crate::asteroids::{
    shard_from, shard_heading, spawn_count, Asteroid, Shard, ASTEROID_FLOOR, SHARD_COUNT,
    SHARD_JITTER_MAX, SHARD_LIFETIME_SECONDS, SHARD_OFFSET,
};
use crate::basics::{clamp_coord, Hitpoints, MICROS_PER_SECOND};
use crate::combat::{
    bullet_after, bullet_consumed, bullet_meets, lethal_rams, rams_handled, ramming_ids, worn,
    SHIP_COLLISION_DAMAGE,
};
use crate::geometry::{abs, dist_sq, lemma_scaled_vec_bounded, scaled_vec, Point};
use crate::laser::{after_contact, hit_key, laser_damaged, nearest_target, targetable};
use crate::magnet::{attracted, nearest_magnet, pull_speed, reaches, Magnet, MagnetAttractable};
use crate::ship::Spaceship;
use crate::weapons::Bullet;

verus! {

/// A bullet is spent on at most one asteroid in a pass; once spent it is
/// marked, and a marked bullet is spent on no asteroid in any later pass. So
/// a bullet damages at most one asteroid in its whole life.
pub proof fn bullet_damages_at_most_once(b: Bullet, asteroids: Seq<Asteroid>, later: Seq<Asteroid>, i: int, k: int, m: int)
    requires
        0 <= i < asteroids.len(),
        0 <= k < asteroids.len(),
        0 <= m < later.len(),
        bullet_consumed(b, asteroids, i),
    ensures
        bullet_consumed(b, asteroids, k) ==> i == k,
        bullet_after(b, asteroids).already_hit,
        !bullet_consumed(bullet_after(b, asteroids), later, m),
{
    if bullet_consumed(b, asteroids, k) {
        if i < k {
            assert(!bullet_meets(asteroids[i], b));
        } else if k < i {
            assert(!bullet_meets(asteroids[k], b));
        }
    }
    assert(bullet_meets(asteroids[i], b));
}

/// A tick without beam contact sets a target's damage timer back to zero,
/// and the damage pass that follows takes no hitpoint off: contact must be
/// unbroken for a whole period before the next point of damage.
pub proof fn broken_contact_restarts_damage(a: Asteroid, dt: u64)
    requires
        a.laser is Some,
        a.laser.unwrap().damage_tick.duration > 0,
    ensures
        after_contact(a, 0, dt).laser.unwrap().damage_tick.elapsed == 0,
        after_contact(a, 0, dt).laser.unwrap().damage_tick.duration == a.laser.unwrap().damage_tick.duration,
        laser_damaged(after_contact(a, 0, dt)).hitpoints == a.hitpoints,
{
}

/// The beam's target is the nearest: of all targetable asteroids it has the
/// smallest squared distance to where the beam meets it, and no earlier
/// asteroid is as near. With no target, nothing is targetable.
pub proof fn beam_picks_nearest(asteroids: Seq<Asteroid>, start: Point, dir: crate::geometry::Direction)
    ensures
        nearest_target(asteroids, start, dir) matches Some(j) ==> 0 <= j < asteroids.len() && targetable(
            asteroids[j],
            start,
            dir,
        ) && (forall|i: int|
            0 <= i < asteroids.len() && #[trigger] targetable(asteroids[i], start, dir) ==> hit_key(
                asteroids[j],
                start,
                dir,
            ) <= hit_key(asteroids[i], start, dir)) && (forall|i: int|
            0 <= i < j && #[trigger] targetable(asteroids[i], start, dir) ==> hit_key(
                asteroids[j],
                start,
                dir,
            ) < hit_key(asteroids[i], start, dir)),
        nearest_target(asteroids, start, dir) is None ==> forall|i: int|
            0 <= i < asteroids.len() ==> !#[trigger] targetable(asteroids[i], start, dir),
    decreases asteroids.len(),
{
    if asteroids.len() > 0 {
        let rest = asteroids.drop_last();
        beam_picks_nearest(rest, start, dir);
        assert(forall|i: int| 0 <= i < rest.len() ==> rest[i] == asteroids[i]);
    }
}

/// Every shard of a burst appears within a short, fixed distance of where
/// its asteroid died, is drawn to magnets, and lives two seconds.
pub proof fn burst_shards_near_and_collectable(origin: Point, n: int, jitter: int, rotation: u32, id: u64)
    requires
        0 <= n < SHARD_COUNT,
        0 <= jitter <= SHARD_JITTER_MAX,
    ensures
        dist_sq(shard_from(origin, n, jitter, rotation, id).pos, origin) <= 2 * SHARD_OFFSET * SHARD_OFFSET,
        shard_from(origin, n, jitter, rotation, id).attractable == Some(MagnetAttractable),
        shard_from(origin, n, jitter, rotation, id).lifetime.life_left.duration == SHARD_LIFETIME_SECONDS
            * MICROS_PER_SECOND,
        shard_from(origin, n, jitter, rotation, id).lifetime.life_left.elapsed == 0,
{
    let (hx, hy) = shard_heading(n, jitter);
    let o = scaled_vec(hx, hy, SHARD_OFFSET as int);
    lemma_scaled_vec_bounded(hx, hy, SHARD_OFFSET as int);
    let s = shard_from(origin, n, jitter, rotation, id);
    let ex = s.pos.x - origin.x;
    let ey = s.pos.y - origin.y;
    assert(s.pos.x == clamp_coord(origin.x + o.0));
    assert(abs(ex) <= 10);
    assert(abs(ey) <= 10);
    assert(ex * ex <= 100) by (nonlinear_arith)
        requires
            -10 <= ex <= 10,
    ;
    assert(ey * ey <= 100) by (nonlinear_arith)
        requires
            -10 <= ey <= 10,
    ;
}

proof fn lemma_no_magnet_in_reach(magnets: Seq<(Point, Magnet)>, item: Point)
    ensures
        nearest_magnet(magnets, item) is None <==> forall|i: int|
            0 <= i < magnets.len() ==> !#[trigger] reaches(magnets[i], item),
        nearest_magnet(magnets, item) matches Some(i) ==> 0 <= i < magnets.len() && reaches(magnets[i], item),
    decreases magnets.len(),
{
    if magnets.len() > 0 {
        let rest = magnets.drop_last();
        lemma_no_magnet_in_reach(rest, item);
        assert(forall|i: int| 0 <= i < rest.len() ==> rest[i] == magnets[i]);
    }
}

/// An attractable shard that no magnet reaches keeps its velocity and
/// lifetime. One that a magnet reaches has its velocity replaced by one toward
/// the nearest such magnet, of that magnet's pull speed, whatever it was, and
/// its lifetime skips the next tick.
pub proof fn magnet_overrides_within_reach(s: Shard, magnets: Seq<(Point, Magnet)>, dt: u32)
    requires
        s.attractable is Some,
    ensures
        (forall|i: int| 0 <= i < magnets.len() ==> !#[trigger] reaches(magnets[i], s.pos)) ==> attracted(
            s,
            magnets,
            dt,
        ) == s,
        (exists|i: int| 0 <= i < magnets.len() && #[trigger] reaches(magnets[i], s.pos)) ==> {
            let i = nearest_magnet(magnets, s.pos).unwrap();
            let v = scaled_vec(
                magnets[i].0.x - s.pos.x,
                magnets[i].0.y - s.pos.y,
                pull_speed(magnets[i].1, dt),
            );
            &&& 0 <= i < magnets.len()
            &&& reaches(magnets[i], s.pos)
            &&& attracted(s, magnets, dt).velocity.x == v.0
            &&& attracted(s, magnets, dt).velocity.y == v.1
            &&& attracted(s, magnets, dt).lifetime.prevent_tick
            &&& attracted(s, magnets, dt).pos == s.pos
        },
{
    lemma_no_magnet_in_reach(magnets, s.pos);
    if exists|i: int| 0 <= i < magnets.len() && #[trigger] reaches(magnets[i], s.pos) {
        let i = nearest_magnet(magnets, s.pos).unwrap();
        let v = scaled_vec(
            magnets[i].0.x - s.pos.x,
            magnets[i].0.y - s.pos.y,
            pull_speed(magnets[i].1, dt),
        );
        let m = magnets[i].1;
        assert(0 <= m.force * 100 * dt <= 0xffff_ffff * 100 * 0xffff_ffff) by (nonlinear_arith)
            requires
                0 <= m.force <= 0xffff_ffff,
                0 <= dt <= 0xffff_ffff,
        ;
        assert(0 <= pull_speed(m, dt) <= 0x7fff_ffff_ffff_ffff);
        lemma_scaled_vec_bounded(magnets[i].0.x - s.pos.x, magnets[i].0.y - s.pos.y, pull_speed(magnets[i].1, dt));
    }
}

/// After the maintainer runs on a population of at least four, there are
/// at least five asteroids; below five, each run adds one.
pub proof fn population_reaches_floor(count: usize)
    ensures
        count + 1 >= ASTEROID_FLOOR ==> count + spawn_count(count) >= ASTEROID_FLOOR,
        count < ASTEROID_FLOOR ==> spawn_count(count) == 1,
{
}

/// When the ship's hitpoints run out while asteroids ram it, the game ends
/// with the ship at zero, and exactly the rams up to the lethal one are dealt
/// with: none after it.
pub proof fn ram_ends_game_once(ship: Spaceship, asteroids: Seq<Asteroid>)
    requires
        ramming_ids(ship, asteroids).len() >= lethal_rams(ship.hitpoints.0),
    ensures
        rams_handled(ship, asteroids) == lethal_rams(ship.hitpoints.0),
        worn(ship.hitpoints.0, SHIP_COLLISION_DAMAGE * rams_handled(ship, asteroids)) == 0,
{
    let hp = ship.hitpoints.0 as int;
    if hp > 0 {
        assert(10 * ((hp + 9) / 10) >= hp) by (nonlinear_arith)
            requires
                hp > 0,
        ;
    }
}

} // verus!
