use vstd::prelude::*;

use crate::basics::{Tethered, Expiring, Mobile, contains_entity, Identified, clamp_coord, Entity, Hitpoints, Lifetime, MaximumDistanceFrom, Timer, Velocity, MICROS_PER_SECOND};
use crate::chance::random_between;
use crate::geometry::{floor_sqrt, isqrt, lemma_floor_sqrt_unique, scale_to, scaled_vec, Collider, Point};
use crate::ship::Spaceship;
use crate::laser::{HitableByLaser, LASER_DAMAGE_PERIOD};
use crate::magnet::MagnetAttractable;

verus! {

/// An asteroid. While alive it has a velocity, a collider, hitpoints and
/// laser susceptibility; once wrecked those are gone and a short lifetime
/// runs instead.
#[derive(Clone, Copy, Debug, PartialEq, Eq, Structural)]
pub struct Asteroid {
    pub id: Entity,
    pub pos: Point,
    pub velocity: Option<Velocity>,
    pub collider: Option<Collider>,
    pub hitpoints: Option<Hitpoints>,
    pub laser: Option<HitableByLaser>,
    pub lifetime: Option<Lifetime>,
    pub max_distance: MaximumDistanceFrom,
    pub sprite_index: u32,
}

impl Identified for Asteroid {
    open spec fn entity(&self) -> Entity {
        self.id
    }

    fn id(&self) -> (r: Entity) {
        self.id
    }
}

impl Expiring for Asteroid {
    open spec fn life(&self) -> Option<Lifetime> {
        self.lifetime
    }

    open spec fn with_life(self, l: Lifetime) -> Self {
        Asteroid { lifetime: Some(l), ..self }
    }

    fn lifetime_of(&self) -> (r: Option<Lifetime>) {
        self.lifetime
    }

    fn set_lifetime(&mut self, l: Lifetime) {
        self.lifetime = Some(l);
    }
}

impl Tethered for Asteroid {
    open spec fn tether(&self) -> Option<MaximumDistanceFrom> {
        Some(self.max_distance)
    }

    fn tether_of(&self) -> (r: Option<MaximumDistanceFrom>) {
        Some(self.max_distance)
    }
}

impl Mobile for Asteroid {
    open spec fn position(&self) -> Point {
        self.pos
    }

    open spec fn motion(&self) -> Option<Velocity> {
        self.velocity
    }

    open spec fn moved_to(self, p: Point) -> Self {
        Asteroid { pos: p, ..self }
    }

    fn pos_vel(&self) -> (r: (Point, Option<Velocity>)) {
        (self.pos, self.velocity)
    }

    fn set_position(&mut self, p: Point) {
        self.pos = p;
    }
}

/// A fragment of a destroyed asteroid, collected by the ship.
/// `rotation` is its visual turn, in milliradians.
#[derive(Clone, Copy, Debug, PartialEq, Eq, Structural)]
pub struct Shard {
    pub id: Entity,
    pub pos: Point,
    pub velocity: Velocity,
    pub lifetime: Lifetime,
    pub rotation: u32,
    pub attractable: Option<MagnetAttractable>,
}

impl Identified for Shard {
    open spec fn entity(&self) -> Entity {
        self.id
    }

    fn id(&self) -> (r: Entity) {
        self.id
    }
}

impl Expiring for Shard {
    open spec fn life(&self) -> Option<Lifetime> {
        Some(self.lifetime)
    }

    open spec fn with_life(self, l: Lifetime) -> Self {
        Shard { lifetime: l, ..self }
    }

    fn lifetime_of(&self) -> (r: Option<Lifetime>) {
        Some(self.lifetime)
    }

    fn set_lifetime(&mut self, l: Lifetime) {
        self.lifetime = l;
    }
}

impl Mobile for Shard {
    open spec fn position(&self) -> Point {
        self.pos
    }

    open spec fn motion(&self) -> Option<Velocity> {
        Some(self.velocity)
    }

    open spec fn moved_to(self, p: Point) -> Self {
        Shard { pos: p, ..self }
    }

    fn pos_vel(&self) -> (r: (Point, Option<Velocity>)) {
        (self.pos, Some(self.velocity))
    }

    fn set_position(&mut self, p: Point) {
        self.pos = p;
    }
}


/// Shards in the burst of a destroyed asteroid.
pub const SHARD_COUNT: u64 = 5;

/// Distance from the asteroid at which shards appear.
pub const SHARD_OFFSET: u64 = 10;

/// Speed of a shard, in world units per second.
pub const SHARD_SPEED: u64 = 15;

/// How long a shard lives, in seconds.
pub const SHARD_LIFETIME_SECONDS: u32 = 2;

/// Largest clockwise turn of a shard off its slot, in thousandths of the
/// slot's unit direction.
pub const SHARD_JITTER_MAX: i32 = 1000;

/// One full turn, in milliradians.
pub const FULL_TURN_MRAD: i32 = 6283;

/// How long a wrecked asteroid flashes before it is gone, in milliseconds.
pub const WRECK_FLASH_MILLIS: u32 = 200;

/// Hitpoints of a new asteroid.
pub const ASTEROID_HITPOINTS: u32 = 3;

/// Half-extent of an asteroid's box.
pub const ASTEROID_HALF_SIZE: u32 = 8;

/// Distance from the ship at which new asteroids appear.
pub const SPAWN_RADIUS: i32 = 1000;

/// Speed of a new asteroid, in world units per second.
pub const ASTEROID_SPEED: u64 = 100;

/// Distance from the ship beyond which an asteroid is despawned.
pub const ASTEROID_MAX_DISTANCE: u32 = 1200;

/// The number of asteroids the population is kept at.
pub const ASTEROID_FLOOR: usize = 5;

/// Unit direction of shard slot `n` (0 to 4), in thousandths: the slots sit
/// a fifth of a turn apart, starting a fifth of a turn from the x axis.
pub open spec fn shard_slot(n: int) -> (int, int) {
    if n == 0 {
        (309, 951)
    } else if n == 1 {
        (-809, 588)
    } else if n == 2 {
        (-809, -588)
    } else if n == 3 {
        (309, -951)
    } else {
        (1000, 0)
    }
}

fn shard_slot_exec(n: u64) -> (r: (i64, i64))
    ensures
        (r.0 as int, r.1 as int) == shard_slot(n as int),
{
    if n == 0 {
        (309, 951)
    } else if n == 1 {
        (-809, 588)
    } else if n == 2 {
        (-809, -588)
    } else if n == 3 {
        (309, -951)
    } else {
        (1000, 0)
    }
}

/// The direction of shard `n`, turned clockwise off its slot by `jitter`
/// thousandths.
pub open spec fn shard_heading(n: int, jitter: int) -> (int, int) {
    let (x, y) = shard_slot(n);
    (x * 1000 + y * jitter, y * 1000 - x * jitter)
}

/// Shard `n` of the burst of an asteroid that died at `origin`.
pub open spec fn shard_from(origin: Point, n: int, jitter: int, rotation: u32, id: Entity) -> Shard {
    let (hx, hy) = shard_heading(n, jitter);
    let offset = scaled_vec(hx, hy, SHARD_OFFSET as int);
    let v = scaled_vec(hx, hy, SHARD_SPEED as int);
    Shard {
        id,
        pos: Point { x: clamp_coord(origin.x + offset.0), y: clamp_coord(origin.y + offset.1) },
        velocity: Velocity { x: v.0 as i64, y: v.1 as i64 },
        lifetime: Lifetime {
            life_left: Timer { duration: (SHARD_LIFETIME_SECONDS * MICROS_PER_SECOND) as u64, elapsed: 0 },
            prevent_tick: false,
        },
        rotation,
        attractable: Some(MagnetAttractable),
    }
}

/// The burst of shards of an asteroid that died at `origin`, with the given
/// jitter and rotation for each, numbered from `first_id`.
pub open spec fn burst(origin: Point, jitters: Seq<i32>, rotations: Seq<u32>, first_id: u64) -> Seq<Shard> {
    Seq::new(
        SHARD_COUNT as nat,
        |n: int| shard_from(origin, n, jitters[n] as int, rotations[n], (first_id + n) as u64),
    )
}

fn offset_coord(c: i32, d: i64) -> (r: i32)
    requires
        -0x1_0000 <= d <= 0x1_0000,
    ensures
        r == clamp_coord(c + d),
{
    let t: i64 = c as i64 + d;
    if t < i32::MIN as i64 {
        i32::MIN
    } else if t > i32::MAX as i64 {
        i32::MAX
    } else {
        t as i32
    }
}

/// Spawns the burst of shards of an asteroid that died at `origin`: one per
/// slot, each turned by its jitter, placed a short way out along its
/// direction and moving outward along it, with a two-second lifetime and
/// drawn to magnets.
pub fn shatter(
    origin: Point,
    jitters: &Vec<i32>,
    rotations: &Vec<u32>,
    next_id: &mut u64,
    shards: &mut Vec<Shard>,
)
    requires
        jitters@.len() == SHARD_COUNT,
        rotations@.len() == SHARD_COUNT,
        forall|n: int| 0 <= n < SHARD_COUNT ==> 0 <= #[trigger] jitters@[n] <= SHARD_JITTER_MAX,
        *old(next_id) + SHARD_COUNT <= u64::MAX,
    ensures
        final(shards)@ == old(shards)@ + burst(origin, jitters@, rotations@, *old(next_id)),
        *final(next_id) == *old(next_id) + SHARD_COUNT,
{
    let ghost shards0 = shards@;
    let ghost next0 = *next_id;
    let mut n: u64 = 0;
    while n < SHARD_COUNT
        invariant
            0 <= n <= SHARD_COUNT,
            jitters@.len() == SHARD_COUNT,
            rotations@.len() == SHARD_COUNT,
            forall|m: int| 0 <= m < SHARD_COUNT ==> 0 <= #[trigger] jitters@[m] <= SHARD_JITTER_MAX,
            next0 + SHARD_COUNT <= u64::MAX,
            *next_id == next0 + n,
            shards@ == shards0 + Seq::new(
                n as nat,
                |m: int| shard_from(origin, m, jitters@[m] as int, rotations@[m], (next0 + m) as u64),
            ),
        decreases SHARD_COUNT - n,
    {
        let (x, y) = shard_slot_exec(n);
        let j: i64 = jitters[n as usize] as i64;
        assert(0 <= j <= 1000);
        assert(-1000 <= x <= 1000 && -1000 <= y <= 1000);
        assert(-1_000_000 <= y * j <= 1_000_000) by (nonlinear_arith)
            requires
                -1000 <= y <= 1000,
                0 <= j <= 1000,
        ;
        assert(-1_000_000 <= x * j <= 1_000_000) by (nonlinear_arith)
            requires
                -1000 <= x <= 1000,
                0 <= j <= 1000,
        ;
        let hx: i64 = x * 1000 + y * j;
        let hy: i64 = y * 1000 - x * j;
        let (ox, oy) = scale_to(hx, hy, SHARD_OFFSET);
        let (vx, vy) = scale_to(hx, hy, SHARD_SPEED);
        let shard = Shard {
            id: *next_id,
            pos: Point { x: offset_coord(origin.x, ox), y: offset_coord(origin.y, oy) },
            velocity: Velocity { x: vx, y: vy },
            lifetime: Lifetime::seconds(SHARD_LIFETIME_SECONDS),
            rotation: rotations[n as usize],
            attractable: Some(MagnetAttractable),
        };
        shards.push(shard);
        *next_id = *next_id + 1;
        n = n + 1;
        assert(shards@ =~= shards0 + Seq::new(
            n as nat,
            |m: int| shard_from(origin, m, jitters@[m] as int, rotations@[m], (next0 + m) as u64),
        ));
    }
}

/// The sprite frame for an asteroid with `hp` hitpoints: one frame per
/// point lost.
pub open spec fn damage_frame(hp: u32) -> u32 {
    if hp >= ASTEROID_HITPOINTS {
        0
    } else {
        (ASTEROID_HITPOINTS - hp) as u32
    }
}

/// A live asteroid shows its damage; others are left as they are.
pub open spec fn with_damage_frame(a: Asteroid) -> Asteroid {
    match a.hitpoints {
        Some(hp) => Asteroid { sprite_index: damage_frame(hp.0), ..a },
        None => a,
    }
}

/// The asteroid has hitpoints, and none are left.
pub open spec fn is_dying(a: Asteroid) -> bool {
    a.hitpoints == Some(Hitpoints(0))
}

/// The asteroids that die on this tick, in order.
pub open spec fn dying(asteroids: Seq<Asteroid>) -> Seq<Asteroid>
    decreases asteroids.len(),
{
    if asteroids.len() == 0 {
        Seq::empty()
    } else {
        let rest = dying(asteroids.drop_last());
        if is_dying(asteroids.last()) {
            rest.push(asteroids.last())
        } else {
            rest
        }
    }
}

proof fn lemma_dying_len(asteroids: Seq<Asteroid>)
    ensures
        dying(asteroids).len() <= asteroids.len(),
    decreases asteroids.len(),
{
    if asteroids.len() > 0 {
        lemma_dying_len(asteroids.drop_last());
    }
}

/// `s` is shard `n` of a burst around `origin`, with id `id`, for some
/// jitter and rotation in range.
pub open spec fn is_burst_shard(s: Shard, origin: Point, n: int, id: Entity) -> bool {
    exists|j: int, r: u32|
        0 <= j <= SHARD_JITTER_MAX && r <= FULL_TURN_MRAD && s == shard_from(origin, n, j, r, id)
}

/// The destruction cascade. Every live asteroid shows its damage. Every
/// asteroid left with no hitpoints is queued to be wrecked and bursts into
/// shards: those of the `d`-th dying asteroid are shards `5d` to `5d + 4` of
/// the new ones, around its position, with ids counted on from `next_id`.
pub fn asteroid_damage(
    asteroids: &mut Vec<Asteroid>,
    next_id: &mut u64,
    wreck: &mut Vec<Entity>,
    shards: &mut Vec<Shard>,
)
    requires
        *old(next_id) + SHARD_COUNT * old(asteroids)@.len() <= u64::MAX,
    ensures
        final(asteroids)@.len() == old(asteroids)@.len(),
        forall|k: int|
            0 <= k < old(asteroids)@.len() ==> final(asteroids)@[k] == with_damage_frame(old(asteroids)@[k]),
        final(wreck)@ == old(wreck)@ + dying(old(asteroids)@).map_values(|a: Asteroid| a.id),
        final(shards)@.len() == old(shards)@.len() + SHARD_COUNT * dying(old(asteroids)@).len(),
        forall|n: int|
            0 <= n < SHARD_COUNT * dying(old(asteroids)@).len() ==> is_burst_shard(
                #[trigger] final(shards)@[old(shards)@.len() + n],
                dying(old(asteroids)@)[n / (SHARD_COUNT as int)].pos,
                n % (SHARD_COUNT as int),
                (*old(next_id) + n) as u64,
            ),
        forall|n: int| 0 <= n < old(shards)@.len() ==> final(shards)@[n] == old(shards)@[n],
        *final(next_id) == *old(next_id) + SHARD_COUNT * dying(old(asteroids)@).len(),
{
    let ghost asteroids0 = asteroids@;
    let ghost wreck0 = wreck@;
    let ghost shards0 = shards@;
    let ghost next0 = *next_id;
    let mut i: usize = 0;
    while i < asteroids.len()
        invariant
            0 <= i <= asteroids@.len(),
            asteroids@.len() == asteroids0.len(),
            next0 + SHARD_COUNT * asteroids0.len() <= u64::MAX,
            forall|k: int| 0 <= k < i ==> asteroids@[k] == with_damage_frame(asteroids0[k]),
            forall|k: int| i <= k < asteroids0.len() ==> asteroids@[k] == asteroids0[k],
            wreck@ == wreck0 + dying(asteroids0.take(i as int)).map_values(|a: Asteroid| a.id),
            shards@.len() == shards0.len() + SHARD_COUNT * dying(asteroids0.take(i as int)).len(),
            forall|n: int|
                0 <= n < SHARD_COUNT * dying(asteroids0.take(i as int)).len() ==> is_burst_shard(
                    #[trigger] shards@[shards0.len() + n],
                    dying(asteroids0.take(i as int))[n / (SHARD_COUNT as int)].pos,
                    n % (SHARD_COUNT as int),
                    (next0 + n) as u64,
                ),
            forall|n: int| 0 <= n < shards0.len() ==> shards@[n] == shards0[n],
            *next_id == next0 + SHARD_COUNT * dying(asteroids0.take(i as int)).len(),
        decreases asteroids0.len() - i,
    {
        let ghost prefix = asteroids0.take(i as int);
        let ghost dead_before = dying(prefix);
        let ghost shards_before = shards@;
        assert(asteroids0.take(i as int + 1).drop_last() == prefix);
        assert(asteroids0.take(i as int + 1).last() == asteroids0[i as int]);
        proof {
            lemma_dying_len(prefix);
            assert(SHARD_COUNT * dead_before.len() + SHARD_COUNT <= SHARD_COUNT * asteroids0.len()) by (nonlinear_arith)
                requires
                    dead_before.len() <= i,
                    i < asteroids0.len(),
            ;
        }
        let mut a = asteroids[i];
        if let Some(hp) = a.hitpoints {
            a.sprite_index = if hp.0 >= ASTEROID_HITPOINTS {
                0
            } else {
                ASTEROID_HITPOINTS - hp.0
            };
            asteroids.set(i, a);
            if hp.is_dead() {
                wreck.push(a.id);
                let mut jitters: Vec<i32> = Vec::new();
                let mut rotations: Vec<u32> = Vec::new();
                let mut n: u64 = 0;
                while n < SHARD_COUNT
                    invariant
                        0 <= n <= SHARD_COUNT,
                        jitters@.len() == n,
                        rotations@.len() == n,
                        forall|m: int| 0 <= m < n ==> 0 <= #[trigger] jitters@[m] <= SHARD_JITTER_MAX,
                        forall|m: int| 0 <= m < n ==> #[trigger] rotations@[m] <= FULL_TURN_MRAD,
                    decreases SHARD_COUNT - n,
                {
                    jitters.push(random_between(0, SHARD_JITTER_MAX));
                    rotations.push(random_between(0, FULL_TURN_MRAD) as u32);
                    n = n + 1;
                }
                let ghost id0 = *next_id;
                shatter(a.pos, &jitters, &rotations, next_id, shards);
                proof {
                    let dead_after = dying(asteroids0.take(i as int + 1));
                    assert(dead_after == dead_before.push(asteroids0[i as int]));
                    assert(dead_before.map_values(|a: Asteroid| a.id).push(a.id) =~= dead_after.map_values(
                        |a: Asteroid| a.id,
                    ));
                    let base = SHARD_COUNT * dead_before.len();
                    assert forall|n: int| 0 <= n < SHARD_COUNT * dead_after.len() implies is_burst_shard(
                        #[trigger] shards@[shards0.len() + n],
                        dead_after[n / (SHARD_COUNT as int)].pos,
                        n % (SHARD_COUNT as int),
                        (next0 + n) as u64,
                    ) by {
                        if n < base {
                            assert(n / (SHARD_COUNT as int) < dead_before.len()) by (nonlinear_arith)
                                requires
                                    0 <= n < SHARD_COUNT * dead_before.len(),
                            ;
                            assert(shards@[shards0.len() + n] == shards_before[shards0.len() + n]);
                            assert(dead_after[n / (SHARD_COUNT as int)] == dead_before[n / (SHARD_COUNT as int)]);
                        } else {
                            let k = n - base;
                            assert(0 <= k < 5);
                            assert(n / (SHARD_COUNT as int) == dead_before.len()) by (nonlinear_arith)
                                requires
                                    base == SHARD_COUNT * dead_before.len(),
                                    n == base + k,
                                    0 <= k < 5,
                            ;
                            assert(n % (SHARD_COUNT as int) == k) by (nonlinear_arith)
                                requires
                                    base == SHARD_COUNT * dead_before.len(),
                                    n == base + k,
                                    0 <= k < 5,
                            ;
                            assert(shards@[shards0.len() + n] == burst(a.pos, jitters@, rotations@, id0)[k]);
                            assert(0 <= jitters@[k] <= SHARD_JITTER_MAX);
                            assert(rotations@[k] <= FULL_TURN_MRAD);
                            assert(is_burst_shard(
                                shards@[shards0.len() + n],
                                a.pos,
                                k,
                                (next0 + n) as u64,
                            )) by {
                                assert(shards@[shards0.len() + n] == shard_from(
                                    a.pos,
                                    k,
                                    jitters@[k] as int,
                                    rotations@[k],
                                    (next0 + n) as u64,
                                ));
                            }
                        }
                    }
                }
            }
        }
        i += 1;
    }
    assert(asteroids0.take(i as int) == asteroids0);
}


/// An asteroid once wrecked: it stops moving and colliding, can no longer
/// be damaged or beamed, shows its last frame, and is gone after a short
/// flash.
pub open spec fn wrecked(a: Asteroid) -> Asteroid {
    Asteroid {
        velocity: None,
        collider: None,
        hitpoints: None,
        laser: None,
        lifetime: Some(
            Lifetime {
                life_left: Timer { duration: (WRECK_FLASH_MILLIS * 1000) as u64, elapsed: 0 },
                prevent_tick: false,
            },
        ),
        sprite_index: ASTEROID_HITPOINTS,
        ..a
    }
}

/// Applies the queued wrecks: every asteroid whose id is queued is wrecked.
pub fn wreck_asteroids(asteroids: &mut Vec<Asteroid>, ids: &Vec<Entity>)
    ensures
        final(asteroids)@.len() == old(asteroids)@.len(),
        forall|k: int|
            0 <= k < old(asteroids)@.len() ==> final(asteroids)@[k] == if ids@.contains(old(asteroids)@[k].id) {
                wrecked(old(asteroids)@[k])
            } else {
                old(asteroids)@[k]
            },
{
    let ghost asteroids0 = asteroids@;
    let mut i: usize = 0;
    while i < asteroids.len()
        invariant
            0 <= i <= asteroids@.len(),
            asteroids@.len() == asteroids0.len(),
            forall|k: int|
                0 <= k < i ==> asteroids@[k] == if ids@.contains(asteroids0[k].id) {
                    wrecked(asteroids0[k])
                } else {
                    asteroids0[k]
                },
            forall|k: int| i <= k < asteroids0.len() ==> asteroids@[k] == asteroids0[k],
        decreases asteroids0.len() - i,
    {
        let a = asteroids[i];
        if contains_entity(ids, a.id) {
            asteroids.set(
                i,
                Asteroid {
                    velocity: None,
                    collider: None,
                    hitpoints: None,
                    laser: None,
                    lifetime: Some(Lifetime::millis(WRECK_FLASH_MILLIS)),
                    sprite_index: ASTEROID_HITPOINTS,
                    ..a
                },
            );
        }
        i += 1;
    }
}

/// The `y` offset, on the spawn circle, of a point at `x` offset `dx`:
/// above the centre when `upper`, below it otherwise.
pub open spec fn spawn_dy(dx: int, upper: bool) -> int {
    let h = floor_sqrt(SPAWN_RADIUS * SPAWN_RADIUS - dx * dx);
    if upper {
        h
    } else {
        -h
    }
}

/// A new asteroid on the circle around the ship, at `x` offset `dx` and on
/// the side that `upper` picks, heading for the ship.
pub open spec fn asteroid_spawned_at(ship: Spaceship, dx: int, upper: bool, id: Entity) -> Asteroid {
    let pos = Point {
        x: clamp_coord(ship.pos.x + dx),
        y: clamp_coord(ship.pos.y + spawn_dy(dx, upper)),
    };
    let v = scaled_vec(ship.pos.x - pos.x, ship.pos.y - pos.y, ASTEROID_SPEED as int);
    Asteroid {
        id,
        pos,
        velocity: Some(Velocity { x: v.0 as i64, y: v.1 as i64 }),
        collider: Some(Collider { half_width: ASTEROID_HALF_SIZE, half_height: ASTEROID_HALF_SIZE }),
        hitpoints: Some(Hitpoints(ASTEROID_HITPOINTS)),
        laser: Some(HitableByLaser { damage_tick: Timer { duration: LASER_DAMAGE_PERIOD, elapsed: 0 } }),
        lifetime: None,
        max_distance: MaximumDistanceFrom { anchor: ship.id, distance: ASTEROID_MAX_DISTANCE },
        sprite_index: 0,
    }
}

/// Builds a new asteroid on the circle around the ship (see
/// `asteroid_spawned_at`).
pub fn asteroid_at(ship: &Spaceship, dx: i32, upper: bool, id: Entity) -> (r: Asteroid)
    requires
        -SPAWN_RADIUS <= dx <= SPAWN_RADIUS,
    ensures
        r == asteroid_spawned_at(*ship, dx as int, upper, id),
{
    assert(0 <= dx * dx <= 1_000_000) by (nonlinear_arith)
        requires
            -1000 <= dx <= 1000,
    ;
    let rest: u128 = (1_000_000 - dx as i64 * dx as i64) as u128;
    let h: u64 = isqrt(rest);
    proof {
        lemma_floor_sqrt_unique(rest as int, h as int);
        assert(h <= 1000) by (nonlinear_arith)
            requires
                h * h <= rest,
                rest <= 1_000_000,
                h >= 0,
        ;
    }
    let dy: i64 = if upper { h as i64 } else { -(h as i64) };
    let pos = Point { x: offset_coord(ship.pos.x, dx as i64), y: offset_coord(ship.pos.y, dy) };
    let (vx, vy) = scale_to(
        ship.pos.x as i64 - pos.x as i64,
        ship.pos.y as i64 - pos.y as i64,
        ASTEROID_SPEED,
    );
    Asteroid {
        id,
        pos,
        velocity: Some(Velocity { x: vx, y: vy }),
        collider: Some(Collider { half_width: ASTEROID_HALF_SIZE, half_height: ASTEROID_HALF_SIZE }),
        hitpoints: Some(Hitpoints(ASTEROID_HITPOINTS)),
        laser: Some(HitableByLaser::new()),
        lifetime: None,
        max_distance: MaximumDistanceFrom { anchor: ship.id, distance: ASTEROID_MAX_DISTANCE },
        sprite_index: 0,
    }
}

/// How many asteroids the maintainer adds to a population of `count`.
pub open spec fn spawn_count(count: usize) -> nat {
    if count < ASTEROID_FLOOR {
        1
    } else {
        0
    }
}

/// Keeps the asteroid population up: while fewer than five exist, one new
/// asteroid appears at a random point of the circle around the ship,
/// heading for it. Its id is `next_id`.
pub fn spawn_asteroids(count: usize, ship: &Spaceship, next_id: &mut u64, spawned: &mut Vec<Asteroid>)
    requires
        *old(next_id) < u64::MAX,
    ensures
        final(spawned)@.len() == old(spawned)@.len() + spawn_count(count),
        forall|k: int| 0 <= k < old(spawned)@.len() ==> final(spawned)@[k] == old(spawned)@[k],
        count < ASTEROID_FLOOR ==> exists|dx: int, upper: bool|
            -SPAWN_RADIUS <= dx <= SPAWN_RADIUS && #[trigger] final(spawned)@[old(spawned)@.len() as int]
                == asteroid_spawned_at(*ship, dx, upper, *old(next_id)),
        *final(next_id) == *old(next_id) + spawn_count(count),
{
    if count < ASTEROID_FLOOR {
        let dx = random_between(-SPAWN_RADIUS, SPAWN_RADIUS);
        let upper = random_between(0, 1) == 1;
        let a = asteroid_at(ship, dx, upper, *next_id);
        spawned.push(a);
        *next_id = *next_id + 1;
        assert(spawned@[spawned@.len() - 1] == asteroid_spawned_at(*ship, dx as int, upper, *old(next_id)));
    }
}

} // verus!
