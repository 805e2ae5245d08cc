use vstd::prelude::*;

use crate::asteroids::Shard;
use crate::basics::{Lifetime, Velocity, MICROS_PER_SECOND};
use crate::geometry::{dist_sq, distance_squared, scale_to, scaled_vec, Point};

verus! {

/// Tag of an entity that magnets pull in.
#[derive(Clone, Copy, Debug, PartialEq, Eq, Structural)]
pub struct MagnetAttractable;

/// Pulls attractable entities that come within `max_distance`.
#[derive(Clone, Copy, Debug, PartialEq, Eq, Structural)]
pub struct Magnet {
    pub force: u32,
    pub max_distance: u32,
}

/// The magnet at `m` reaches an entity at `item`: strictly closer than its
/// maximum distance.
pub open spec fn reaches(m: (Point, Magnet), item: Point) -> bool {
    dist_sq(m.0, item) < m.1.max_distance * m.1.max_distance
}

/// The index of the nearest magnet that reaches `item`; among equally near
/// ones, the first.
pub open spec fn nearest_magnet(magnets: Seq<(Point, Magnet)>, item: Point) -> Option<int>
    decreases magnets.len(),
{
    if magnets.len() == 0 {
        None
    } else {
        let prev = nearest_magnet(magnets.drop_last(), item);
        let i = magnets.len() - 1;
        if reaches(magnets[i], item) && (prev matches Some(p) ==> dist_sq(magnets[i].0, item) < dist_sq(
            magnets[p].0,
            item,
        )) {
            Some(i)
        } else {
            prev
        }
    }
}

/// The speed a magnet gives on a tick of `dt` microseconds.
pub open spec fn pull_speed(m: Magnet, dt: u32) -> int {
    (m.force * 100 * dt) / (MICROS_PER_SECOND as int)
}

/// A shard after the magnets act: when it is attractable and a magnet reaches
/// it, its velocity is replaced by one toward the nearest such magnet, of
/// that magnet's pull speed, and its lifetime skips the next tick. Otherwise
/// it is left as it is.
pub open spec fn attracted(s: Shard, magnets: Seq<(Point, Magnet)>, dt: u32) -> Shard {
    if s.attractable is None {
        s
    } else {
        match nearest_magnet(magnets, s.pos) {
            None => s,
            Some(i) => {
                let (mp, m) = magnets[i];
                let v = scaled_vec(mp.x - s.pos.x, mp.y - s.pos.y, pull_speed(m, dt));
                Shard {
                    velocity: Velocity { x: v.0 as i64, y: v.1 as i64 },
                    lifetime: Lifetime { prevent_tick: true, ..s.lifetime },
                    ..s
                }
            },
        }
    }
}

fn find_nearest_magnet(magnets: &Vec<(Point, Magnet)>, item: Point) -> (r: Option<usize>)
    ensures
        match r {
            Some(i) => nearest_magnet(magnets@, item) == Some(i as int) && i < magnets@.len(),
            None => nearest_magnet(magnets@, item) is None,
        },
{
    let mut best: Option<(usize, u128)> = None;
    let mut i: usize = 0;
    while i < magnets.len()
        invariant
            0 <= i <= magnets@.len(),
            match best {
                Some((j, d)) => nearest_magnet(magnets@.take(i as int), item) == Some(j as int) && j < i
                    && d == dist_sq(magnets@[j as int].0, item),
                None => nearest_magnet(magnets@.take(i as int), item) is None,
            },
        decreases magnets@.len() - i,
    {
        let ghost prefix = magnets@.take(i as int + 1);
        assert(prefix.drop_last() == magnets@.take(i as int));
        assert(prefix[i as int] == magnets@[i as int]);
        if let Some((j, _)) = best {
            assert(prefix[j as int] == magnets@[j as int]);
        }
        let (mp, m) = magnets[i];
        let d = distance_squared(mp, item);
        assert(0 <= m.max_distance * m.max_distance <= 0xffff_fffe_0000_0001) by (nonlinear_arith)
            requires
                0 <= m.max_distance <= 0xffff_ffff,
        ;
        if d < m.max_distance as u128 * m.max_distance as u128 {
            let better = match best {
                None => true,
                Some((_, bd)) => d < bd,
            };
            if better {
                best = Some((i, d));
            }
        }
        i += 1;
    }
    assert(magnets@.take(i as int) == magnets@);
    match best {
        Some((j, _)) => Some(j),
        None => None,
    }
}

/// Pulls every attractable shard toward the nearest magnet that reaches it,
/// replacing its velocity and keeping its lifetime from running on the next
/// tick. Shards no magnet reaches keep their velocity.
pub fn magnets(shards: &mut Vec<Shard>, magnets: &Vec<(Point, Magnet)>, dt: u32)
    ensures
        final(shards)@.len() == old(shards)@.len(),
        forall|k: int| 0 <= k < old(shards)@.len() ==> final(shards)@[k] == attracted(old(shards)@[k], magnets@, dt),
{
    let ghost shards0 = shards@;
    let mut k: usize = 0;
    while k < shards.len()
        invariant
            0 <= k <= shards@.len(),
            shards@.len() == shards0.len(),
            forall|m: int| 0 <= m < k ==> shards@[m] == attracted(shards0[m], magnets@, dt),
            forall|m: int| k <= m < shards0.len() ==> shards@[m] == shards0[m],
        decreases shards0.len() - k,
    {
        let s = shards[k];
        if s.attractable.is_some() {
            if let Some(i) = find_nearest_magnet(magnets, s.pos) {
                let (mp, m) = magnets[i];
                proof {
                    assert(m.force * 100 * dt <= 0xffff_ffff * 100 * 0xffff_ffff) by (nonlinear_arith)
                        requires
                            0 <= m.force <= 0xffff_ffff,
                            0 <= dt <= 0xffff_ffff,
                    ;
                    assert(0 <= m.force * 100 * dt) by (nonlinear_arith)
                        requires
                            0 <= m.force,
                            0 <= dt,
                    ;
                }
                let speed: u128 = m.force as u128 * 100 * dt as u128 / MICROS_PER_SECOND as u128;
                let (vx, vy) = scale_to(
                    mp.x as i64 - s.pos.x as i64,
                    mp.y as i64 - s.pos.y as i64,
                    speed as u64,
                );
                shards.set(
                    k,
                    Shard {
                        velocity: Velocity { x: vx, y: vy },
                        lifetime: Lifetime { prevent_tick: true, ..s.lifetime },
                        ..s
                    },
                );
            }
        }
        k += 1;
    }
}

} // verus!
