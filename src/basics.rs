use vstd::prelude::*;

use crate::geometry::{dist_sq, distance_squared, Point};

verus! {

/// An entity's identifier. Entities refer to one another by id only; a
/// referenced entity may be gone, which every reader checks.
pub type Entity = u64;

/// Microseconds per second; every duration and elapsed time is in microseconds.
pub const MICROS_PER_SECOND: u64 = 1_000_000;

/// Velocity in world units per second.
#[derive(Clone, Copy, Debug, PartialEq, Eq, Structural)]
pub struct Velocity {
    pub x: i64,
    pub y: i64,
}

impl Velocity {
    pub fn from(x: i64, y: i64) -> (r: Velocity)
        ensures
            r == (Velocity { x, y }),
    {
        Velocity { x, y }
    }
}

/// Remaining hitpoints; never negative.
#[derive(Clone, Copy, Debug, PartialEq, Eq, Structural)]
pub struct Hitpoints(pub u32);

/// `previous - damage`, or zero where the damage is larger.
pub open spec fn saturating_damage(previous: u32, damage: u32) -> u32 {
    if previous >= damage {
        (previous - damage) as u32
    } else {
        0
    }
}

impl Hitpoints {
    /// Takes `dmg` hitpoints off, stopping at zero.
    pub fn damage(&mut self, dmg: u32)
        ensures
            final(self).0 == saturating_damage(old(self).0, dmg),
            final(self).0 as int == if old(self).0 >= dmg {
                old(self).0 - dmg
            } else {
                0
            },
    {
        self.0 = self.0.saturating_sub(dmg);
    }

    pub fn is_dead(&self) -> (r: bool)
        ensures
            r == (self.0 == 0),
    {
        self.0 == 0
    }
}

/// A non-repeating countdown: `elapsed` grows by the ticks it is given until
/// it reaches `duration`, where it stays until reset.
#[derive(Clone, Copy, Debug, PartialEq, Eq, Structural)]
pub struct Timer {
    pub duration: u64,
    pub elapsed: u64,
}

impl Timer {
    pub open spec fn ticked(self, dt: u64) -> Timer {
        Timer {
            duration: self.duration,
            elapsed: if self.elapsed + dt >= self.duration {
                self.duration
            } else {
                (self.elapsed + dt) as u64
            },
        }
    }

    pub open spec fn is_finished(self) -> bool {
        self.elapsed >= self.duration
    }

    pub fn new(duration: u64) -> (r: Timer)
        ensures
            r == (Timer { duration, elapsed: 0 }),
    {
        Timer { duration, elapsed: 0 }
    }

    pub fn tick(&mut self, dt: u64)
        ensures
            *final(self) == old(self).ticked(dt),
    {
        if self.elapsed >= self.duration || dt >= self.duration - self.elapsed {
            self.elapsed = self.duration;
        } else {
            self.elapsed = self.elapsed + dt;
        }
    }

    pub fn finished(&self) -> (r: bool)
        ensures
            r == self.is_finished(),
    {
        self.elapsed >= self.duration
    }

    pub fn reset(&mut self)
        ensures
            *final(self) == (Timer { duration: old(self).duration, elapsed: 0 }),
    {
        self.elapsed = 0;
    }
}

/// Time left before an entity is despawned. `prevent_tick`, set by other
/// systems, makes the next tick leave the countdown alone.
#[derive(Clone, Copy, Debug, PartialEq, Eq, Structural)]
pub struct Lifetime {
    pub life_left: Timer,
    pub prevent_tick: bool,
}

impl Lifetime {
    pub fn millis(millis: u32) -> (r: Lifetime)
        ensures
            r.life_left.duration == millis * 1000,
            r.life_left.elapsed == 0,
            !r.prevent_tick,
    {
        Lifetime { life_left: Timer::new(millis as u64 * 1000), prevent_tick: false }
    }

    pub fn seconds(seconds: u32) -> (r: Lifetime)
        ensures
            r.life_left.duration == seconds * MICROS_PER_SECOND,
            r.life_left.elapsed == 0,
            !r.prevent_tick,
    {
        Lifetime { life_left: Timer::new(seconds as u64 * MICROS_PER_SECOND), prevent_tick: false }
    }

    /// The lifetime after one tick of `dt`: a set `prevent_tick` is cleared
    /// instead of counting down.
    pub open spec fn advanced(self, dt: u64) -> Lifetime {
        if self.prevent_tick {
            Lifetime { life_left: self.life_left, prevent_tick: false }
        } else {
            Lifetime { life_left: self.life_left.ticked(dt), prevent_tick: false }
        }
    }

    /// Whether the entity expires on this tick.
    pub open spec fn expires(self, dt: u64) -> bool {
        !self.prevent_tick && self.life_left.ticked(dt).is_finished()
    }

    /// Advances the countdown by one tick and says whether it ran out.
    pub fn advance(&mut self, dt: u64) -> (expired: bool)
        ensures
            *final(self) == old(self).advanced(dt),
            expired == old(self).expires(dt),
    {
        if self.prevent_tick {
            self.prevent_tick = false;
            return false;
        }
        self.life_left.tick(dt);
        self.life_left.finished()
    }
}

/// Despawns its holder once it is farther than `distance` from `anchor`, or
/// once `anchor` is gone.
#[derive(Clone, Copy, Debug, PartialEq, Eq, Structural)]
pub struct MaximumDistanceFrom {
    pub anchor: Entity,
    pub distance: u32,
}

/// A record of an entity, which knows its id.
pub trait Identified: Sized + Copy {
    spec fn entity(&self) -> Entity;

    fn id(&self) -> (r: Entity)
        ensures
            r == self.entity(),
    ;
}

/// Whether `id` is among `ids`.
pub fn contains_entity(ids: &Vec<Entity>, id: Entity) -> (r: bool)
    ensures
        r == ids@.contains(id),
{
    let mut i: usize = 0;
    while i < ids.len()
        invariant
            0 <= i <= ids@.len(),
            forall|k: int| 0 <= k < i ==> ids@[k] != id,
        decreases ids@.len() - i,
    {
        if ids[i] == id {
            assert(ids@[i as int] == id);
            return true;
        }
        i += 1;
    }
    false
}

/// The records whose id is not among `ids`, in their order.
pub open spec fn kept<T: Identified>(items: Seq<T>, ids: Seq<Entity>) -> Seq<T>
    decreases items.len(),
{
    if items.len() == 0 {
        Seq::empty()
    } else {
        let rest = kept(items.drop_last(), ids);
        if ids.contains(items.last().entity()) {
            rest
        } else {
            rest.push(items.last())
        }
    }
}

/// Applies queued despawns to one store: every record whose id is queued is
/// removed, the others stay in order.
pub fn despawn_entities<T: Identified>(items: &mut Vec<T>, ids: &Vec<Entity>)
    ensures
        final(items)@ == kept(old(items)@, ids@),
{
    let ghost items0 = items@;
    let mut out: Vec<T> = Vec::new();
    let mut i: usize = 0;
    while i < items.len()
        invariant
            0 <= i <= items@.len(),
            items@ == items0,
            out@ == kept(items0.take(i as int), ids@),
        decreases items0.len() - i,
    {
        let x = items[i];
        assert(items0.take(i as int + 1).drop_last() == items0.take(i as int));
        assert(items0.take(i as int + 1).last() == x);
        if !contains_entity(ids, x.id()) {
            out.push(x);
        }
        i += 1;
    }
    assert(items0.take(i as int) == items0);
    *items = out;
}

/// Queues the despawn of every entity of a store, as when a game session
/// ends.
pub fn cleanup<T: Identified>(items: &Vec<T>, despawn: &mut Vec<Entity>)
    ensures
        final(despawn)@ == old(despawn)@ + items@.map_values(|x: T| x.entity()),
{
    let ghost despawn0 = despawn@;
    let mut i: usize = 0;
    while i < items.len()
        invariant
            0 <= i <= items@.len(),
            despawn@ == despawn0 + items@.take(i as int).map_values(|x: T| x.entity()),
        decreases items@.len() - i,
    {
        despawn.push(items[i].id());
        i += 1;
        assert(items@.take(i as int).map_values(|x: T| x.entity()) =~= items@.take(i as int - 1).map_values(
            |x: T| x.entity(),
        ).push(items@[i as int - 1].entity()));
    }
    assert(items@.take(i as int) == items@);
}

/// A record of an entity that may carry a lifetime.
pub trait Expiring: Identified {
    spec fn life(&self) -> Option<Lifetime>;

    /// The record with its lifetime replaced.
    spec fn with_life(self, l: Lifetime) -> Self;

    fn lifetime_of(&self) -> (r: Option<Lifetime>)
        ensures
            r == self.life(),
    ;

    fn set_lifetime(&mut self, l: Lifetime)
        ensures
            *final(self) == old(self).with_life(l),
    ;
}

/// A record after one tick of its lifetime, if it has one.
pub open spec fn aged<T: Expiring>(x: T, dt: u64) -> T {
    match x.life() {
        Some(l) => x.with_life(l.advanced(dt)),
        None => x,
    }
}

/// The ids of the entities whose lifetime runs out on this tick, in order.
pub open spec fn expired_ids<T: Expiring>(items: Seq<T>, dt: u64) -> Seq<Entity>
    decreases items.len(),
{
    if items.len() == 0 {
        Seq::empty()
    } else {
        let rest = expired_ids(items.drop_last(), dt);
        if items.last().life() matches Some(l) && l.expires(dt) {
            rest.push(items.last().entity())
        } else {
            rest
        }
    }
}

/// Counts every lifetime in a store down by `dt` and queues the despawn of
/// each entity whose lifetime ran out.
pub fn lifetime<T: Expiring>(items: &mut Vec<T>, dt: u64, despawn: &mut Vec<Entity>)
    ensures
        final(items)@.len() == old(items)@.len(),
        forall|k: int| 0 <= k < old(items)@.len() ==> final(items)@[k] == aged(old(items)@[k], dt),
        final(despawn)@ == old(despawn)@ + expired_ids(old(items)@, dt),
{
    let ghost items0 = items@;
    let ghost despawn0 = despawn@;
    let mut i: usize = 0;
    while i < items.len()
        invariant
            0 <= i <= items@.len(),
            items@.len() == items0.len(),
            forall|k: int| 0 <= k < i ==> items@[k] == aged(items0[k], dt),
            forall|k: int| i <= k < items0.len() ==> items@[k] == items0[k],
            despawn@ == despawn0 + expired_ids(items0.take(i as int), dt),
        decreases items0.len() - i,
    {
        let mut x = items[i];
        assert(items0.take(i as int + 1).drop_last() == items0.take(i as int));
        assert(items0.take(i as int + 1).last() == x);
        let id = x.id();
        if let Some(mut life) = x.lifetime_of() {
            let expired = life.advance(dt);
            x.set_lifetime(life);
            items.set(i, x);
            if expired {
                despawn.push(id);
            }
        }
        i += 1;
    }
    assert(items0.take(i as int) == items0);
}

/// The position of the first entity with id `id`, if there is one.
pub open spec fn position_of(entities: Seq<(Entity, Point)>, id: Entity) -> Option<Point>
    decreases entities.len(),
{
    if entities.len() == 0 {
        None
    } else if entities[0].0 == id {
        Some(entities[0].1)
    } else {
        position_of(entities.drop_first(), id)
    }
}

/// Finds an entity's position by id.
pub fn find_position(entities: &Vec<(Entity, Point)>, id: Entity) -> (r: Option<Point>)
    ensures
        r == position_of(entities@, id),
{
    let mut i: usize = 0;
    assert(entities@.skip(0) == entities@);
    while i < entities.len()
        invariant
            0 <= i <= entities@.len(),
            position_of(entities@, id) == position_of(entities@.skip(i as int), id),
        decreases entities@.len() - i,
    {
        assert(entities@.skip(i as int).drop_first() == entities@.skip(i as int + 1));
        if entities[i].0 == id {
            return Some(entities[i].1);
        }
        i += 1;
    }
    None
}

/// An entity held at a maximum distance is despawned when its anchor is gone
/// or when it is strictly farther than the allowed distance.
pub open spec fn out_of_range(pos: Point, rule: MaximumDistanceFrom, anchors: Seq<(Entity, Point)>) -> bool {
    match position_of(anchors, rule.anchor) {
        None => true,
        Some(a) => dist_sq(pos, a) > rule.distance * rule.distance,
    }
}

/// A record of an entity that may be held within a distance of another.
pub trait Tethered: Mobile {
    spec fn tether(&self) -> Option<MaximumDistanceFrom>;

    fn tether_of(&self) -> (r: Option<MaximumDistanceFrom>)
        ensures
            r == self.tether(),
    ;
}

/// The ids of the tethered entities that are out of range, in order.
pub open spec fn out_of_range_ids<T: Tethered>(items: Seq<T>, anchors: Seq<(Entity, Point)>) -> Seq<Entity>
    decreases items.len(),
{
    if items.len() == 0 {
        Seq::empty()
    } else {
        let rest = out_of_range_ids(items.drop_last(), anchors);
        let x = items.last();
        if x.tether() matches Some(rule) && out_of_range(x.position(), rule, anchors) {
            rest.push(x.entity())
        } else {
            rest
        }
    }
}

/// Queues the despawn of every entity of a store that drifted beyond its
/// maximum distance from its anchor, or whose anchor no longer exists.
/// `anchors` lists the entities that exist, with their positions.
pub fn maximum_distance_from<T: Tethered>(items: &Vec<T>, anchors: &Vec<(Entity, Point)>, despawn: &mut Vec<Entity>)
    ensures
        final(despawn)@ == old(despawn)@ + out_of_range_ids(items@, anchors@),
{
    let ghost despawn0 = despawn@;
    let mut i: usize = 0;
    while i < items.len()
        invariant
            0 <= i <= items@.len(),
            despawn@ == despawn0 + out_of_range_ids(items@.take(i as int), anchors@),
        decreases items@.len() - i,
    {
        let x = items[i];
        assert(items@.take(i as int + 1).drop_last() == items@.take(i as int));
        assert(items@.take(i as int + 1).last() == x);
        if let Some(rule) = x.tether_of() {
            let (pos, _) = x.pos_vel();
            let gone = match find_position(anchors, rule.anchor) {
                None => true,
                Some(a) => {
                    proof {
                        assert(0 <= rule.distance * rule.distance <= 0xffff_fffe_0000_0001) by (nonlinear_arith)
                            requires
                                0 <= rule.distance <= 0xffff_ffff,
                        ;
                    }
                    distance_squared(pos, a) > rule.distance as u128 * rule.distance as u128
                },
            };
            if gone {
                despawn.push(x.id());
            }
        }
        i += 1;
    }
    assert(items@.take(i as int) == items@);
}

/// Moves `v` by `speed * dt` microseconds' worth, rounded toward zero, and
/// keeps the result inside the range of world coordinates.
pub open spec fn moved_coord(c: i32, v: i64, dt: u64) -> i32 {
    let step = if v < 0 {
        -((-v * dt) / (MICROS_PER_SECOND as int))
    } else {
        (v * dt) / (MICROS_PER_SECOND as int)
    };
    clamp_coord(c + step)
}

pub open spec fn clamp_coord(v: int) -> i32 {
    if v < i32::MIN {
        i32::MIN
    } else if v > i32::MAX {
        i32::MAX
    } else {
        v as i32
    }
}

pub open spec fn moved(p: Point, v: Velocity, dt: u32) -> Point {
    Point { x: moved_coord(p.x, v.x, dt as u64), y: moved_coord(p.y, v.y, dt as u64) }
}

fn move_coord(c: i32, v: i64, dt: u32) -> (r: i32)
    ensures
        r == moved_coord(c, v, dt as u64),
{
    let av: u128 = if v < 0 { (-(v as i128)) as u128 } else { v as u128 };
    proof {
        assert(av * dt <= 0x8000_0000_0000_0000 * 0xffff_ffff) by (nonlinear_arith)
            requires
                av <= 0x8000_0000_0000_0000,
                dt <= 0xffff_ffff,
        ;
    }
    let q: u128 = av * dt as u128 / MICROS_PER_SECOND as u128;
    assert(q <= 0x8000_0000_0000_0000 * 0xffff_ffff);
    let step: i128 = if v < 0 { -(q as i128) } else { q as i128 };
    let target: i128 = c as i128 + step;
    if target < i32::MIN as i128 {
        i32::MIN
    } else if target > i32::MAX as i128 {
        i32::MAX
    } else {
        target as i32
    }
}

/// A record of an entity with a position and, possibly, a velocity.
pub trait Mobile: Identified {
    spec fn position(&self) -> Point;

    spec fn motion(&self) -> Option<Velocity>;

    /// The record moved to `p`.
    spec fn moved_to(self, p: Point) -> Self;

    fn pos_vel(&self) -> (r: (Point, Option<Velocity>))
        ensures
            r == (self.position(), self.motion()),
    ;

    fn set_position(&mut self, p: Point)
        ensures
            *final(self) == old(self).moved_to(p),
    ;
}

/// A record after moving along its velocity, if it has one.
pub open spec fn carried<T: Mobile>(x: T, dt: u32) -> T {
    match x.motion() {
        Some(v) => x.moved_to(moved(x.position(), v, dt)),
        None => x,
    }
}

/// Moves every entity of a store along its velocity for `dt` microseconds.
pub fn movement<T: Mobile>(items: &mut Vec<T>, dt: u32)
    ensures
        final(items)@.len() == old(items)@.len(),
        forall|k: int| 0 <= k < old(items)@.len() ==> final(items)@[k] == carried(old(items)@[k], dt),
{
    let ghost items0 = items@;
    let mut i: usize = 0;
    while i < items.len()
        invariant
            0 <= i <= items@.len(),
            items@.len() == items0.len(),
            forall|k: int| 0 <= k < i ==> items@[k] == carried(items0[k], dt),
            forall|k: int| i <= k < items0.len() ==> items@[k] == items0[k],
        decreases items0.len() - i,
    {
        let mut x = items[i];
        let (p, v) = x.pos_vel();
        if let Some(v) = v {
            x.set_position(Point { x: move_coord(p.x, v.x, dt), y: move_coord(p.y, v.y, dt) });
            items.set(i, x);
        }
        i += 1;
    }
}

/// Steps through `frames` sprite frames, one every period of its timer.
#[derive(Clone, Copy, Debug, PartialEq, Eq, Structural)]
pub struct SpriteAnimation {
    pub timer: Timer,
    pub current: usize,
    pub frames: usize,
}

impl SpriteAnimation {
    pub fn new(millis: u32, frames: usize) -> (r: SpriteAnimation)
        ensures
            r.timer.duration == millis * 1000,
            r.timer.elapsed == 0,
            r.current == 0,
            r.frames == frames,
    {
        SpriteAnimation { timer: Timer::new(millis as u64 * 1000), current: 0, frames }
    }

    /// Moves to the next frame, wrapping after the last.
    pub fn next(&mut self) -> (r: usize)
        requires
            old(self).frames > 0,
        ensures
            r == (old(self).current + 1) % (old(self).frames as int),
            *final(self) == (SpriteAnimation { current: r, ..*old(self) }),
    {
        self.current = ((self.current as u128 + 1) % self.frames as u128) as usize;
        self.current
    }

    /// The animation after one tick of `dt`: the timer restarts and the frame
    /// advances each time a period completes.
    pub open spec fn advanced(self, dt: u64) -> SpriteAnimation {
        let t = self.timer.ticked(dt);
        if t.is_finished() {
            SpriteAnimation {
                timer: Timer { duration: t.duration, elapsed: 0 },
                current: ((self.current + 1) % (self.frames as int)) as usize,
                frames: self.frames,
            }
        } else {
            SpriteAnimation { timer: t, ..self }
        }
    }
}

/// Advances every animation by `dt`.
pub fn sprite_animation(anims: &mut Vec<SpriteAnimation>, dt: u64)
    requires
        forall|k: int| 0 <= k < old(anims)@.len() ==> old(anims)@[k].frames > 0,
    ensures
        final(anims)@.len() == old(anims)@.len(),
        forall|k: int| 0 <= k < old(anims)@.len() ==> final(anims)@[k] == old(anims)@[k].advanced(dt),
{
    let ghost anims0 = anims@;
    let mut i: usize = 0;
    while i < anims.len()
        invariant
            0 <= i <= anims@.len(),
            anims@.len() == anims0.len(),
            forall|k: int| 0 <= k < anims0.len() ==> anims0[k].frames > 0,
            forall|k: int| 0 <= k < i ==> anims@[k] == anims0[k].advanced(dt),
            forall|k: int| i <= k < anims0.len() ==> anims@[k] == anims0[k],
        decreases anims0.len() - i,
    {
        let mut a = anims[i];
        assert(a.frames > 0) by {
            assert(anims0[i as int].frames > 0);
        }
        a.timer.tick(dt);
        if a.timer.finished() {
            a.timer.reset();
            a.next();
        }
        anims.set(i, a);
        i += 1;
    }
}

} // verus!
