use vstd::prelude::*;

use crate::asteroids::Asteroid;
use crate::basics::{contains_entity, Identified, saturating_damage, Entity, Hitpoints, Timer};
use crate::geometry::{
    dir_len_sq, floor_sqrt, hit_reach, isqrt, lemma_floor_sqrt_unique, ray_circle_intersection,
    ray_hits, Direction, Point, REACH_BOUND,
};
use crate::weapons::{Weapon, WeaponEntity, WeaponLaser};

verus! {

/// Radius of the circle that a laser target presents to the beam.
pub const LASER_TARGET_RADIUS: u32 = 16;

/// Length of a beam that hits nothing.
pub const BEAM_MAX_LENGTH: u64 = 1000;

/// Contact time after which a beamed target loses a hitpoint, in microseconds.
pub const LASER_DAMAGE_PERIOD: u64 = 150_000;

/// Makes an entity a laser target. `damage_tick` runs only under unbroken
/// contact with a beam.
#[derive(Clone, Copy, Debug, PartialEq, Eq, Structural)]
pub struct HitableByLaser {
    pub damage_tick: Timer,
}

impl HitableByLaser {
    pub fn new() -> (r: HitableByLaser)
        ensures
            r == (HitableByLaser { damage_tick: Timer { duration: LASER_DAMAGE_PERIOD, elapsed: 0 } }),
    {
        HitableByLaser { damage_tick: Timer::new(LASER_DAMAGE_PERIOD) }
    }
}

/// The beam of the laser in weapon slot `origin`: where it starts, where it
/// points, how long it is and whether it ends on a target.
#[derive(Clone, Copy, Debug, PartialEq, Eq, Structural)]
pub struct LaserBeam {
    pub id: Entity,
    pub origin: Entity,
    pub impacted: bool,
    pub visible: bool,
    pub pos: Point,
    pub dir: Direction,
    pub length: u64,
}

impl Identified for LaserBeam {
    open spec fn entity(&self) -> Entity {
        self.id
    }

    fn id(&self) -> (r: Entity) {
        self.id
    }
}

/// The flash at the end of beam `parent`.
#[derive(Clone, Copy, Debug, PartialEq, Eq, Structural)]
pub struct LaserImpact {
    pub id: Entity,
    pub parent: Entity,
    pub visible: bool,
    pub offset: u64,
}

impl Identified for LaserImpact {
    open spec fn entity(&self) -> Entity {
        self.id
    }

    fn id(&self) -> (r: Entity) {
        self.id
    }
}

/// The asteroid can be hit by a beam from `start` along `dir`.
pub open spec fn targetable(a: Asteroid, start: Point, dir: Direction) -> bool {
    a.laser.is_some() && ray_hits(start, dir, a.pos, LASER_TARGET_RADIUS)
}

/// How far along the beam the asteroid is met (see `hit_reach`).
pub open spec fn reach_of(a: Asteroid, start: Point, dir: Direction) -> int {
    hit_reach(start, dir, a.pos, LASER_TARGET_RADIUS)
}

/// The squared distance from `start` to where the beam meets the asteroid,
/// times the squared length of `dir`.
pub open spec fn hit_key(a: Asteroid, start: Point, dir: Direction) -> int {
    reach_of(a, start, dir) * reach_of(a, start, dir)
}

/// The index of the target nearest to the beam's start: the smallest
/// `hit_key` among the targetable asteroids; among equals, the first.
pub open spec fn nearest_target(asteroids: Seq<Asteroid>, start: Point, dir: Direction) -> Option<int>
    decreases asteroids.len(),
{
    if asteroids.len() == 0 {
        None
    } else {
        let prev = nearest_target(asteroids.drop_last(), start, dir);
        let i = asteroids.len() - 1;
        if targetable(asteroids[i], start, dir) && (prev matches Some(p) ==> hit_key(
            asteroids[i],
            start,
            dir,
        ) < hit_key(asteroids[p], start, dir)) {
            Some(i)
        } else {
            prev
        }
    }
}

/// The weapon entity with id `id`, where it holds a laser (first match).
pub open spec fn laser_of(weapons: Seq<WeaponEntity>, id: Entity) -> Option<WeaponEntity>
    decreases weapons.len(),
{
    if weapons.len() == 0 {
        None
    } else if weapons[0].id == id && weapons[0].weapon is Laser {
        Some(weapons[0])
    } else {
        laser_of(weapons.drop_first(), id)
    }
}

/// The asteroid that `beam` hits on this tick, if any.
pub open spec fn beam_target(beam: LaserBeam, weapons: Seq<WeaponEntity>, asteroids: Seq<Asteroid>) -> Option<int> {
    match laser_of(weapons, beam.origin) {
        Some(w) => match w.weapon {
            Weapon::Laser(WeaponLaser::Firing(dir)) => nearest_target(asteroids, w.pos, dir),
            _ => None,
        },
        None => None,
    }
}

/// The beam's length: the distance to the target it hits, rounded down, or
/// the full length when it hits nothing.
pub open spec fn beam_length(asteroids: Seq<Asteroid>, target: Option<int>, start: Point, dir: Direction) -> u64 {
    match target {
        Some(j) => floor_sqrt(hit_key(asteroids[j], start, dir) / dir_len_sq(dir)) as u64,
        None => BEAM_MAX_LENGTH,
    }
}

/// A beam after this tick's update. A beam whose weapon is gone is left as
/// it is (it is despawned); an idle laser's beam is hidden.
pub open spec fn beam_updated(beam: LaserBeam, weapons: Seq<WeaponEntity>, asteroids: Seq<Asteroid>) -> LaserBeam {
    match laser_of(weapons, beam.origin) {
        None => beam,
        Some(w) => match w.weapon {
            Weapon::Laser(WeaponLaser::Firing(dir)) => {
                let t = nearest_target(asteroids, w.pos, dir);
                LaserBeam {
                    visible: true,
                    impacted: t.is_some(),
                    pos: w.pos,
                    dir,
                    length: beam_length(asteroids, t, w.pos, dir),
                    ..beam
                }
            },
            _ => LaserBeam { visible: false, impacted: false, ..beam },
        },
    }
}

/// The ids of the beams whose weapon is gone, in order.
pub open spec fn orphan_ids(beams: Seq<LaserBeam>, weapons: Seq<WeaponEntity>) -> Seq<Entity>
    decreases beams.len(),
{
    if beams.len() == 0 {
        Seq::empty()
    } else {
        let rest = orphan_ids(beams.drop_last(), weapons);
        if laser_of(weapons, beams.last().origin) is None {
            rest.push(beams.last().id)
        } else {
            rest
        }
    }
}

/// How many of the beams hit asteroid `j` on this tick.
pub open spec fn hits_on(beams: Seq<LaserBeam>, weapons: Seq<WeaponEntity>, asteroids: Seq<Asteroid>, j: int) -> nat
    decreases beams.len(),
{
    if beams.len() == 0 {
        0
    } else {
        hits_on(beams.drop_last(), weapons, asteroids, j) + if beam_target(
            beams.last(),
            weapons,
            asteroids,
        ) == Some(j) {
            1nat
        } else {
            0nat
        }
    }
}

/// A timer ticked `n` times by `dt`.
pub open spec fn ticked_times(t: Timer, dt: u64, n: nat) -> Timer
    decreases n,
{
    if n == 0 {
        t
    } else {
        ticked_times(t, dt, (n - 1) as nat).ticked(dt)
    }
}

/// A laser target's damage timer after `n` beam hits in one tick: ticked once
/// per hit, and back to zero when no beam touched it.
pub open spec fn after_contact(a: Asteroid, n: nat, dt: u64) -> Asteroid {
    match a.laser {
        Some(h) => Asteroid {
            laser: Some(
                HitableByLaser {
                    damage_tick: if n > 0 {
                        ticked_times(h.damage_tick, dt, n)
                    } else {
                        Timer { duration: h.damage_tick.duration, elapsed: 0 }
                    },
                },
            ),
            ..a
        },
        None => a,
    }
}

/// The asteroid with its damage timer ticked `n` times.
pub open spec fn with_ticks(a: Asteroid, n: nat, dt: u64) -> Asteroid {
    match a.laser {
        Some(h) => Asteroid {
            laser: Some(HitableByLaser { damage_tick: ticked_times(h.damage_tick, dt, n) }),
            ..a
        },
        None => a,
    }
}

proof fn lemma_nearest_in_range(a: Seq<Asteroid>, start: Point, dir: Direction)
    ensures
        nearest_target(a, start, dir) matches Some(j) ==> 0 <= j < a.len() && targetable(a[j], start, dir),
    decreases a.len(),
{
    if a.len() > 0 {
        lemma_nearest_in_range(a.drop_last(), start, dir);
    }
}

/// Two lists of asteroids that agree on positions and on laser
/// susceptibility have the same nearest target.
proof fn lemma_nearest_same(a: Seq<Asteroid>, b: Seq<Asteroid>, start: Point, dir: Direction)
    requires
        a.len() == b.len(),
        forall|j: int| 0 <= j < a.len() ==> a[j].pos == b[j].pos && a[j].laser.is_some() == b[j].laser.is_some(),
    ensures
        nearest_target(a, start, dir) == nearest_target(b, start, dir),
    decreases a.len(),
{
    if a.len() > 0 {
        lemma_nearest_same(a.drop_last(), b.drop_last(), start, dir);
        lemma_nearest_in_range(a.drop_last(), start, dir);
        let prev = nearest_target(a.drop_last(), start, dir);
        if let Some(p) = prev {
            assert(a[p].pos == b[p].pos);
        }
        assert(a[a.len() - 1].pos == b[a.len() - 1].pos);
    }
}

/// The nearest target hit by a beam, with its reach.
fn nearest_hit(asteroids: &Vec<Asteroid>, start: Point, dir: Direction) -> (r: Option<(usize, i128)>)
    ensures
        match r {
            Some((j, reach)) => nearest_target(asteroids@, start, dir) == Some(j as int) && j
                < asteroids@.len() && reach == reach_of(asteroids@[j as int], start, dir) && -REACH_BOUND
                <= reach <= REACH_BOUND,
            None => nearest_target(asteroids@, start, dir) is None,
        },
{
    let mut best: Option<(usize, i128)> = None;
    let mut i: usize = 0;
    while i < asteroids.len()
        invariant
            0 <= i <= asteroids@.len(),
            match best {
                Some((j, reach)) => nearest_target(asteroids@.take(i as int), start, dir) == Some(
                    j as int,
                ) && j < i && reach == reach_of(asteroids@[j as int], start, dir) && -REACH_BOUND
                    <= reach <= REACH_BOUND,
                None => nearest_target(asteroids@.take(i as int), start, dir) is None,
            },
        decreases asteroids@.len() - i,
    {
        let ghost prefix = asteroids@.take(i as int + 1);
        assert(prefix.drop_last() == asteroids@.take(i as int));
        assert(prefix[i as int] == asteroids@[i as int]);
        let a = asteroids[i];
        if a.laser.is_some() {
            if let Some(reach) = ray_circle_intersection(start, dir, a.pos, LASER_TARGET_RADIUS) {
                let better = match best {
                    None => true,
                    Some((j, best_reach)) => {
                        assert(prefix[j as int] == asteroids@[j as int]);
                        proof {
                            assert(reach * reach <= REACH_BOUND * REACH_BOUND) by (nonlinear_arith)
                                requires
                                    -REACH_BOUND <= reach <= REACH_BOUND,
                            ;
                            assert(0 <= reach * reach) by (nonlinear_arith);
                            assert(best_reach * best_reach <= REACH_BOUND * REACH_BOUND) by (nonlinear_arith)
                                requires
                                    -REACH_BOUND <= best_reach <= REACH_BOUND,
                            ;
                            assert(0 <= best_reach * best_reach) by (nonlinear_arith);
                        }
                        reach * reach < best_reach * best_reach
                    },
                };
                if better {
                    best = Some((i, reach));
                }
            } else {
                if let Some((j, _)) = best {
                    assert(prefix[j as int] == asteroids@[j as int]);
                }
            }
        } else {
            if let Some((j, _)) = best {
                assert(prefix[j as int] == asteroids@[j as int]);
            }
        }
        i += 1;
    }
    assert(asteroids@.take(i as int) == asteroids@);
    best
}

/// Finds the laser weapon with id `id`.
fn find_laser(weapons: &Vec<WeaponEntity>, id: Entity) -> (r: Option<WeaponEntity>)
    ensures
        r == laser_of(weapons@, id),
{
    let mut i: usize = 0;
    assert(weapons@.skip(0) == weapons@);
    while i < weapons.len()
        invariant
            0 <= i <= weapons@.len(),
            laser_of(weapons@, id) == laser_of(weapons@.skip(i as int), id),
        decreases weapons@.len() - i,
    {
        assert(weapons@.skip(i as int).drop_first() == weapons@.skip(i as int + 1));
        let w = weapons[i];
        if w.id == id {
            if let Weapon::Laser(_) = w.weapon {
                return Some(w);
            }
        }
        i += 1;
    }
    None
}


/// Casts every beam for this tick. A beam whose laser weapon is gone is
/// queued for despawn. An idle laser's beam is hidden and hits nothing. A
/// firing laser's beam starts at the weapon, points along its direction and
/// ends on the nearest target, whose damage timer it ticks by `dt`; with no
/// target it has its full length. Afterwards every target that no beam hit
/// has its damage timer set back to zero.
#[verifier::rlimit(40)]
pub fn laser_beam(
    beams: &mut Vec<LaserBeam>,
    weapons: &Vec<WeaponEntity>,
    asteroids: &mut Vec<Asteroid>,
    dt: u64,
    despawn: &mut Vec<Entity>,
)
    ensures
        final(beams)@.len() == old(beams)@.len(),
        forall|k: int|
            0 <= k < old(beams)@.len() ==> final(beams)@[k] == beam_updated(
                old(beams)@[k],
                weapons@,
                old(asteroids)@,
            ),
        final(despawn)@ == old(despawn)@ + orphan_ids(old(beams)@, weapons@),
        final(asteroids)@.len() == old(asteroids)@.len(),
        forall|j: int|
            0 <= j < old(asteroids)@.len() ==> final(asteroids)@[j] == after_contact(
                old(asteroids)@[j],
                hits_on(old(beams)@, weapons@, old(asteroids)@, j),
                dt,
            ),
{
    let ghost beams0 = beams@;
    let ghost asteroids0 = asteroids@;
    let ghost despawn0 = despawn@;
    let mut hit: Vec<bool> = Vec::new();
    let mut j: usize = 0;
    while j < asteroids.len()
        invariant
            0 <= j <= asteroids@.len(),
            hit@.len() == j,
            forall|m: int| 0 <= m < j ==> !hit@[m],
        decreases asteroids@.len() - j,
    {
        hit.push(false);
        j += 1;
    }
    proof {
        assert(beams0.take(0) =~= Seq::<LaserBeam>::empty());
        assert forall|m: int| 0 <= m < asteroids0.len() implies asteroids@[m] == with_ticks(
            asteroids0[m],
            hits_on(beams0.take(0), weapons@, asteroids0, m),
            dt,
        ) by {
            assert(hits_on(beams0.take(0), weapons@, asteroids0, m) == 0);
        }
    }
    let mut k: usize = 0;
    while k < beams.len()
        invariant
            0 <= k <= beams@.len(),
            beams@.len() == beams0.len(),
            forall|m: int| 0 <= m < k ==> beams@[m] == beam_updated(beams0[m], weapons@, asteroids0),
            forall|m: int| k <= m < beams0.len() ==> beams@[m] == beams0[m],
            despawn@ == despawn0 + orphan_ids(beams0.take(k as int), weapons@),
            asteroids@.len() == asteroids0.len(),
            hit@.len() == asteroids0.len(),
            forall|m: int|
                0 <= m < asteroids0.len() ==> asteroids@[m] == with_ticks(
                    asteroids0[m],
                    hits_on(beams0.take(k as int), weapons@, asteroids0, m),
                    dt,
                ),
            forall|m: int|
                0 <= m < asteroids0.len() ==> hit@[m] == (hits_on(
                    beams0.take(k as int),
                    weapons@,
                    asteroids0,
                    m,
                ) > 0),
        decreases beams0.len() - k,
    {
        let beam = beams[k];
        let ghost before = asteroids@;
        let ghost prefix = beams0.take(k as int + 1);
        assert(prefix.drop_last() == beams0.take(k as int));
        assert(prefix.last() == beams0[k as int]);
        proof {
            assert forall|m: int| 0 <= m < asteroids0.len() implies before[m].pos == asteroids0[m].pos
                && before[m].laser.is_some() == asteroids0[m].laser.is_some() by {
                assert(before[m] == with_ticks(
                    asteroids0[m],
                    hits_on(beams0.take(k as int), weapons@, asteroids0, m),
                    dt,
                ));
            }
        }
        match find_laser(weapons, beam.origin) {
            None => {
                despawn.push(beam.id);
            },
            Some(w) => {
                match w.weapon {
                    Weapon::Laser(WeaponLaser::Firing(dir)) => {
                        let t = nearest_hit(asteroids, w.pos, dir);
                        proof {
                            lemma_nearest_same(before, asteroids0, w.pos, dir);
                            lemma_nearest_in_range(asteroids0, w.pos, dir);
                        }
                        match t {
                            Some((j, reach)) => {
                                let ghost n = hits_on(beams0.take(k as int), weapons@, asteroids0, j as int);
                                proof {
                                    assert(reach * reach <= REACH_BOUND * REACH_BOUND) by (nonlinear_arith)
                                        requires
                                            -REACH_BOUND <= reach <= REACH_BOUND,
                                    ;
                                    assert(0 <= reach * reach) by (nonlinear_arith);
                                    assert(0 <= dir.x * dir.x <= 0x4000_0000) by (nonlinear_arith)
                                        requires
                                            -0x8000 <= dir.x <= 0x8000,
                                    ;
                                    assert(0 <= dir.y * dir.y <= 0x4000_0000) by (nonlinear_arith)
                                        requires
                                            -0x8000 <= dir.y <= 0x8000,
                                    ;
                                    assert(before[j as int].pos == asteroids0[j as int].pos);
                                }
                                let key: u128 = (reach * reach) as u128;
                                let d: u128 = (dir.x as i128 * dir.x as i128 + dir.y as i128 * dir.y as i128) as u128;
                                let length = isqrt(key / d);
                                proof {
                                    lemma_floor_sqrt_unique((key / d) as int, length as int);
                                }
                                let mut a = asteroids[j];
                                if let Some(h) = a.laser {
                                    let mut tick = h.damage_tick;
                                    tick.tick(dt);
                                    a.laser = Some(HitableByLaser { damage_tick: tick });
                                    assert(ticked_times(asteroids0[j as int].laser.unwrap().damage_tick, dt, n + 1)
                                        == ticked_times(asteroids0[j as int].laser.unwrap().damage_tick, dt, n).ticked(dt));
                                }
                                asteroids.set(j, a);
                                hit.set(j, true);
                                beams.set(
                                    k,
                                    LaserBeam { visible: true, impacted: true, pos: w.pos, dir, length, ..beam },
                                );
                            },
                            None => {
                                beams.set(
                                    k,
                                    LaserBeam {
                                        visible: true,
                                        impacted: false,
                                        pos: w.pos,
                                        dir,
                                        length: BEAM_MAX_LENGTH,
                                        ..beam
                                    },
                                );
                            },
                        }
                    },
                    _ => {
                        beams.set(k, LaserBeam { visible: false, impacted: false, ..beam });
                    },
                }
            },
        }
        k += 1;
    }
    assert(beams0.take(k as int) == beams0);
    let mut j: usize = 0;
    while j < asteroids.len()
        invariant
            0 <= j <= asteroids@.len(),
            asteroids@.len() == asteroids0.len(),
            hit@.len() == asteroids0.len(),
            forall|m: int|
                0 <= m < j ==> asteroids@[m] == after_contact(
                    asteroids0[m],
                    hits_on(beams0, weapons@, asteroids0, m),
                    dt,
                ),
            forall|m: int|
                j <= m < asteroids0.len() ==> asteroids@[m] == with_ticks(
                    asteroids0[m],
                    hits_on(beams0, weapons@, asteroids0, m),
                    dt,
                ),
            forall|m: int|
                0 <= m < asteroids0.len() ==> hit@[m] == (hits_on(beams0, weapons@, asteroids0, m) > 0),
        decreases asteroids0.len() - j,
    {
        let mut a = asteroids[j];
        if !hit[j] {
            if let Some(h) = a.laser {
                let mut tick = h.damage_tick;
                tick.reset();
                a.laser = Some(HitableByLaser { damage_tick: tick });
                asteroids.set(j, a);
            }
        }
        j += 1;
    }
}


/// An asteroid after the laser damage pass: a live target whose damage timer
/// has run out loses one hitpoint and its timer starts over.
pub open spec fn laser_damaged(a: Asteroid) -> Asteroid {
    match (a.hitpoints, a.laser) {
        (Some(hp), Some(h)) => if h.damage_tick.is_finished() {
            Asteroid {
                hitpoints: Some(Hitpoints(saturating_damage(hp.0, 1))),
                laser: Some(
                    HitableByLaser {
                        damage_tick: Timer { duration: h.damage_tick.duration, elapsed: 0 },
                    },
                ),
                ..a
            }
        } else {
            a
        },
        _ => a,
    }
}

/// Applies one point of damage to every target whose damage timer has run
/// out under the beam, and starts the timer over.
pub fn laser_beams_hit_asteroids(asteroids: &mut Vec<Asteroid>)
    ensures
        final(asteroids)@.len() == old(asteroids)@.len(),
        forall|j: int|
            0 <= j < old(asteroids)@.len() ==> final(asteroids)@[j] == laser_damaged(old(asteroids)@[j]),
{
    let ghost asteroids0 = asteroids@;
    let mut j: usize = 0;
    while j < asteroids.len()
        invariant
            0 <= j <= asteroids@.len(),
            asteroids@.len() == asteroids0.len(),
            forall|m: int| 0 <= m < j ==> asteroids@[m] == laser_damaged(asteroids0[m]),
            forall|m: int| j <= m < asteroids0.len() ==> asteroids@[m] == asteroids0[m],
        decreases asteroids0.len() - j,
    {
        let mut a = asteroids[j];
        if let (Some(hp), Some(h)) = (a.hitpoints, a.laser) {
            if h.damage_tick.finished() {
                let mut tick = h.damage_tick;
                tick.reset();
                let mut hp = hp;
                hp.damage(1);
                a.hitpoints = Some(hp);
                a.laser = Some(HitableByLaser { damage_tick: tick });
                asteroids.set(j, a);
            }
        }
        j += 1;
    }
}

/// The beam created for a newly mounted laser: hidden until it fires.
pub open spec fn new_beam(origin: Entity, id: Entity) -> LaserBeam {
    LaserBeam {
        id,
        origin,
        impacted: false,
        visible: false,
        pos: Point { x: 0, y: 0 },
        dir: Direction { x: 0, y: 0 },
        length: 1,
    }
}

/// The impact flash at the end of beam `parent`: hidden at first.
pub open spec fn new_impact(parent: Entity, id: Entity) -> LaserImpact {
    LaserImpact { id, parent, visible: false, offset: 0 }
}

/// Creates one beam, and the impact flash at its end, for each newly mounted
/// laser weapon. The beam of the `n`-th weapon takes id `next_id + 2n`, its
/// flash the id after.
pub fn laser_beam_init(
    added: &Vec<Entity>,
    next_id: &mut u64,
    beams: &mut Vec<LaserBeam>,
    impacts: &mut Vec<LaserImpact>,
)
    requires
        *old(next_id) + 2 * added@.len() <= u64::MAX,
    ensures
        final(beams)@ == old(beams)@ + Seq::new(
            added@.len(),
            |n: int| new_beam(added@[n], (*old(next_id) + 2 * n) as u64),
        ),
        final(impacts)@ == old(impacts)@ + Seq::new(
            added@.len(),
            |n: int| new_impact((*old(next_id) + 2 * n) as u64, (*old(next_id) + 2 * n + 1) as u64),
        ),
        *final(next_id) == *old(next_id) + 2 * added@.len(),
{
    let ghost beams0 = beams@;
    let ghost impacts0 = impacts@;
    let ghost next0 = *next_id;
    let mut i: usize = 0;
    while i < added.len()
        invariant
            0 <= i <= added@.len(),
            next0 + 2 * added@.len() <= u64::MAX,
            *next_id == next0 + 2 * i,
            beams@ == beams0 + Seq::new(i as nat, |n: int| new_beam(added@[n], (next0 + 2 * n) as u64)),
            impacts@ == impacts0 + Seq::new(
                i as nat,
                |n: int| new_impact((next0 + 2 * n) as u64, (next0 + 2 * n + 1) as u64),
            ),
        decreases added@.len() - i,
    {
        let beam_id = *next_id;
        let beam = LaserBeam {
            id: beam_id,
            origin: added[i],
            impacted: false,
            visible: false,
            pos: Point { x: 0, y: 0 },
            dir: Direction { x: 0, y: 0 },
            length: 1,
        };
        let impact = LaserImpact { id: beam_id + 1, parent: beam_id, visible: false, offset: 0 };
        beams.push(beam);
        impacts.push(impact);
        *next_id = beam_id + 2;
        i += 1;
        assert(beams@ =~= beams0 + Seq::new(i as nat, |n: int| new_beam(added@[n], (next0 + 2 * n) as u64)));
        assert(impacts@ =~= impacts0 + Seq::new(
            i as nat,
            |n: int| new_impact((next0 + 2 * n) as u64, (next0 + 2 * n + 1) as u64),
        ));
    }
}

/// The first beam with id `id`, if there is one.
pub open spec fn beam_of(beams: Seq<LaserBeam>, id: Entity) -> Option<LaserBeam>
    decreases beams.len(),
{
    if beams.len() == 0 {
        None
    } else if beams[0].id == id {
        Some(beams[0])
    } else {
        beam_of(beams.drop_first(), id)
    }
}

/// An impact flash after following its beam: shown exactly when the beam
/// ends on a target, and placed at the beam's end. A flash whose beam is
/// gone is left as it is.
pub open spec fn impact_followed(i: LaserImpact, beams: Seq<LaserBeam>) -> LaserImpact {
    match beam_of(beams, i.parent) {
        Some(b) => LaserImpact { visible: b.impacted, offset: b.length, ..i },
        None => i,
    }
}

fn find_beam(beams: &Vec<LaserBeam>, id: Entity) -> (r: Option<LaserBeam>)
    ensures
        r == beam_of(beams@, id),
{
    let mut i: usize = 0;
    assert(beams@.skip(0) == beams@);
    while i < beams.len()
        invariant
            0 <= i <= beams@.len(),
            beam_of(beams@, id) == beam_of(beams@.skip(i as int), id),
        decreases beams@.len() - i,
    {
        assert(beams@.skip(i as int).drop_first() == beams@.skip(i as int + 1));
        if beams[i].id == id {
            return Some(beams[i]);
        }
        i += 1;
    }
    None
}

/// Keeps every impact flash at the end of its beam, shown while the beam
/// ends on a target.
pub fn laser_impact(impacts: &mut Vec<LaserImpact>, beams: &Vec<LaserBeam>)
    ensures
        final(impacts)@.len() == old(impacts)@.len(),
        forall|k: int|
            0 <= k < old(impacts)@.len() ==> final(impacts)@[k] == impact_followed(old(impacts)@[k], beams@),
{
    let ghost impacts0 = impacts@;
    let mut k: usize = 0;
    while k < impacts.len()
        invariant
            0 <= k <= impacts@.len(),
            impacts@.len() == impacts0.len(),
            forall|m: int| 0 <= m < k ==> impacts@[m] == impact_followed(impacts0[m], beams@),
            forall|m: int| k <= m < impacts0.len() ==> impacts@[m] == impacts0[m],
        decreases impacts0.len() - k,
    {
        let i = impacts[k];
        if let Some(b) = find_beam(beams, i.parent) {
            impacts.set(k, LaserImpact { visible: b.impacted, offset: b.length, ..i });
        }
        k += 1;
    }
}


/// The ids of the impact flashes whose beam is among `parents`, in order.
pub open spec fn impacts_of(impacts: Seq<LaserImpact>, parents: Seq<Entity>) -> Seq<Entity>
    decreases impacts.len(),
{
    if impacts.len() == 0 {
        Seq::empty()
    } else {
        let rest = impacts_of(impacts.drop_last(), parents);
        if parents.contains(impacts.last().parent) {
            rest.push(impacts.last().id)
        } else {
            rest
        }
    }
}

/// Queues the despawn of the impact flashes of despawned beams, so that a
/// beam goes together with its flash.
pub fn despawn_impacts_of(impacts: &Vec<LaserImpact>, parents: &Vec<Entity>, despawn: &mut Vec<Entity>)
    ensures
        final(despawn)@ == old(despawn)@ + impacts_of(impacts@, parents@),
{
    let ghost despawn0 = despawn@;
    let mut i: usize = 0;
    while i < impacts.len()
        invariant
            0 <= i <= impacts@.len(),
            despawn@ == despawn0 + impacts_of(impacts@.take(i as int), parents@),
        decreases impacts@.len() - i,
    {
        let imp = impacts[i];
        assert(impacts@.take(i as int + 1).drop_last() == impacts@.take(i as int));
        assert(impacts@.take(i as int + 1).last() == imp);
        if contains_entity(parents, imp.parent) {
            despawn.push(imp.id);
        }
        i += 1;
    }
    assert(impacts@.take(i as int) == impacts@);
}

} // verus!
