use vstd::prelude::*;

use crate::basics::{Expiring, Mobile, Identified, Entity, Lifetime, Timer, Velocity, MICROS_PER_SECOND};
use crate::geometry::{scale_to, scaled_vec, Collider, Direction, Point};
use crate::ship::Spaceship;

verus! {

/// Period of the cannon's cooldown, in microseconds.
pub const CANNON_COOLDOWN: u64 = 150_000;

/// Speed of a cannon shot, in world units per second.
pub const BULLET_SPEED: u64 = 1000;

/// How long a cannon shot lives, in seconds.
pub const BULLET_LIFETIME_SECONDS: u32 = 3;

/// Half-extent of a cannon shot's box.
pub const BULLET_HALF_SIZE: u32 = 8;

/// Length to which aim directions are scaled.
pub const AIM_SCALE: u64 = 10_000;

/// A ship's weapon mounts: which slot is selected and whether the trigger
/// is held.
#[derive(Clone, Copy, Debug, PartialEq, Eq, Structural)]
pub struct WeaponSystem {
    pub current: usize,
    pub slots: usize,
    pub is_firing: bool,
}

/// The slot after `current`, wrapping to the first.
pub open spec fn next_slot(current: usize, slots: usize) -> usize {
    if current + 1 >= slots {
        0
    } else {
        (current + 1) as usize
    }
}

/// The slot before `current`, wrapping to the last.
pub open spec fn prev_slot(current: usize, slots: usize) -> usize {
    if current == 0 {
        (slots - 1) as usize
    } else {
        (current - 1) as usize
    }
}

/// The selection after one scroll signal: negative selects the previous slot,
/// positive the next, zero changes nothing.
pub open spec fn scrolled(ws: WeaponSystem, signal: i32) -> WeaponSystem {
    if signal < 0 {
        WeaponSystem { current: prev_slot(ws.current, ws.slots), ..ws }
    } else if signal > 0 {
        WeaponSystem { current: next_slot(ws.current, ws.slots), ..ws }
    } else {
        ws
    }
}

/// The selection after a sequence of scroll signals, taken in order.
pub open spec fn scrolled_all(ws: WeaponSystem, signals: Seq<i32>) -> WeaponSystem
    decreases signals.len(),
{
    if signals.len() == 0 {
        ws
    } else {
        scrolled(scrolled_all(ws, signals.drop_last()), signals.last())
    }
}

impl WeaponSystem {
    /// The selected slot exists.
    pub open spec fn wf(self) -> bool {
        self.current < self.slots
    }

    /// The one gate through which a weapon may act: the trigger is held and
    /// the weapon sits in the selected slot.
    pub fn is_firing(&self, weapon: &WeaponSlot) -> (r: bool)
        ensures
            r == (self.is_firing && weapon.slot == self.current),
    {
        self.is_firing && weapon.slot == self.current
    }

    pub fn prev(&mut self) -> (r: usize)
        requires
            old(self).wf(),
        ensures
            *final(self) == (WeaponSystem { current: prev_slot(old(self).current, old(self).slots), ..*old(self) }),
            r == final(self).current,
            final(self).wf(),
    {
        if self.current == 0 {
            self.current = self.slots - 1;
        } else {
            self.current -= 1;
        }
        self.current
    }

    pub fn next(&mut self) -> (r: usize)
        requires
            old(self).wf(),
        ensures
            *final(self) == (WeaponSystem { current: next_slot(old(self).current, old(self).slots), ..*old(self) }),
            r == final(self).current,
            final(self).wf(),
    {
        if self.current == self.slots - 1 {
            self.current = 0;
        } else {
            self.current += 1;
        }
        self.current
    }
}

/// Marks a weapon as mounted in slot `slot` of the weapon system of ship
/// `system`.
#[derive(Clone, Copy, Debug, PartialEq, Eq, Structural)]
pub struct WeaponSlot {
    pub system: Entity,
    pub slot: usize,
}

/// The cannon's cooldown.
#[derive(Clone, Copy, Debug, PartialEq, Eq, Structural)]
pub struct WeaponCannon(pub Timer);

impl WeaponCannon {
    pub fn default() -> (r: WeaponCannon)
        ensures
            r == WeaponCannon(Timer { duration: CANNON_COOLDOWN, elapsed: 0 }),
    {
        WeaponCannon(Timer::new(CANNON_COOLDOWN))
    }
}

/// The laser's state: off, or firing along a direction.
#[derive(Clone, Copy, Debug, PartialEq, Eq, Structural)]
pub enum WeaponLaser {
    Idle,
    Firing(Direction),
}

impl WeaponLaser {
    pub fn default() -> (r: WeaponLaser)
        ensures
            r == WeaponLaser::Idle,
    {
        WeaponLaser::Idle
    }
}

/// The weapon in a slot: always exactly one kind.
#[derive(Clone, Copy, Debug, PartialEq, Eq, Structural)]
pub enum Weapon {
    Cannon(WeaponCannon),
    Laser(WeaponLaser),
}

/// What a weapon slot entity is made of before it is given an id and a place.
#[derive(Clone, Copy, Debug, PartialEq, Eq, Structural)]
pub struct WeaponBundle {
    pub weapon_slot: WeaponSlot,
    pub weapon: Weapon,
}

impl WeaponBundle {
    pub fn new(weapon: Weapon, slot: usize, system: Entity) -> (r: WeaponBundle)
        ensures
            r == (WeaponBundle { weapon_slot: WeaponSlot { system, slot }, weapon }),
    {
        WeaponBundle { weapon_slot: WeaponSlot { system, slot }, weapon }
    }
}

/// A weapon slot entity: its id, its position in the world (the firing
/// origin), its mount and its weapon.
#[derive(Clone, Copy, Debug, PartialEq, Eq, Structural)]
pub struct WeaponEntity {
    pub id: Entity,
    pub pos: Point,
    pub weapon_slot: WeaponSlot,
    pub weapon: Weapon,
}

impl Identified for WeaponEntity {
    open spec fn entity(&self) -> Entity {
        self.id
    }

    fn id(&self) -> (r: Entity) {
        self.id
    }
}

/// A cannon shot. `already_hit` keeps it from dealing damage twice.
#[derive(Clone, Copy, Debug, PartialEq, Eq, Structural)]
pub struct Bullet {
    pub id: Entity,
    pub already_hit: bool,
    pub pos: Point,
    pub velocity: Velocity,
    pub collider: Collider,
    pub lifetime: Lifetime,
}

impl Identified for Bullet {
    open spec fn entity(&self) -> Entity {
        self.id
    }

    fn id(&self) -> (r: Entity) {
        self.id
    }
}

impl Expiring for Bullet {
    open spec fn life(&self) -> Option<Lifetime> {
        Some(self.lifetime)
    }

    open spec fn with_life(self, l: Lifetime) -> Self {
        Bullet { lifetime: l, ..self }
    }

    fn lifetime_of(&self) -> (r: Option<Lifetime>) {
        Some(self.lifetime)
    }

    fn set_lifetime(&mut self, l: Lifetime) {
        self.lifetime = l;
    }
}

impl Mobile for Bullet {
    open spec fn position(&self) -> Point {
        self.pos
    }

    open spec fn motion(&self) -> Option<Velocity> {
        Some(self.velocity)
    }

    open spec fn moved_to(self, p: Point) -> Self {
        Bullet { pos: p, ..self }
    }

    fn pos_vel(&self) -> (r: (Point, Option<Velocity>)) {
        (self.pos, Some(self.velocity))
    }

    fn set_position(&mut self, p: Point) {
        self.pos = p;
    }
}

/// Changes the selected slot of every ship's weapon system by each scroll
/// signal in turn.
pub fn weapon_system_switch_weapon(ships: &mut Vec<Spaceship>, signals: &Vec<i32>)
    requires
        forall|k: int| 0 <= k < old(ships)@.len() ==> old(ships)@[k].weapons.wf(),
    ensures
        final(ships)@.len() == old(ships)@.len(),
        forall|k: int|
            0 <= k < old(ships)@.len() ==> final(ships)@[k] == (Spaceship {
                weapons: scrolled_all(old(ships)@[k].weapons, signals@),
                ..old(ships)@[k]
            }),
{
    let ghost ships0 = ships@;
    let mut e: usize = 0;
    while e < signals.len()
        invariant
            0 <= e <= signals@.len(),
            ships@.len() == ships0.len(),
            forall|k: int|
                0 <= k < ships0.len() ==> ships@[k] == (Spaceship {
                    weapons: scrolled_all(ships0[k].weapons, signals@.take(e as int)),
                    ..ships0[k]
                }),
            forall|k: int| 0 <= k < ships0.len() ==> ships@[k].weapons.wf(),
        decreases signals@.len() - e,
    {
        let signal = signals[e];
        let ghost before = ships@;
        assert(signals@.take(e as int + 1).drop_last() == signals@.take(e as int));
        let mut k: usize = 0;
        while k < ships.len()
            invariant
                0 <= k <= ships@.len(),
                ships@.len() == before.len(),
                e < signals@.len(),
                signal == signals@[e as int],
                forall|m: int| 0 <= m < before.len() ==> before[m].weapons.wf(),
                forall|m: int|
                    0 <= m < k ==> ships@[m] == (Spaceship {
                        weapons: scrolled(before[m].weapons, signal),
                        ..before[m]
                    }),
                forall|m: int| k <= m < before.len() ==> ships@[m] == before[m],
            decreases before.len() - k,
        {
            let mut ship = ships[k];
            assert(ship.weapons.wf()) by {
                assert(before[k as int].weapons.wf());
            }
            if signal < 0 {
                ship.weapons.prev();
            } else if signal > 0 {
                ship.weapons.next();
            }
            ships.set(k, ship);
            k += 1;
        }
        proof {
            assert forall|m: int| 0 <= m < ships0.len() implies ships@[m].weapons.wf() by {
                assert(before[m].weapons.wf());
            }
        }
        e += 1;
    }
    assert(signals@.take(e as int) == signals@);
}

/// Writes the trigger state into every ship's weapon system.
pub fn weapon_system_fire(ships: &mut Vec<Spaceship>, pressed: bool)
    ensures
        final(ships)@.len() == old(ships)@.len(),
        forall|k: int|
            0 <= k < old(ships)@.len() ==> final(ships)@[k] == (Spaceship {
                weapons: WeaponSystem { is_firing: pressed, ..old(ships)@[k].weapons },
                ..old(ships)@[k]
            }),
{
    let ghost ships0 = ships@;
    let mut k: usize = 0;
    while k < ships.len()
        invariant
            0 <= k <= ships@.len(),
            ships@.len() == ships0.len(),
            forall|m: int|
                0 <= m < k ==> ships@[m] == (Spaceship {
                    weapons: WeaponSystem { is_firing: pressed, ..ships0[m].weapons },
                    ..ships0[m]
                }),
            forall|m: int| k <= m < ships0.len() ==> ships@[m] == ships0[m],
        decreases ships0.len() - k,
    {
        let mut ship = ships[k];
        ship.weapons.is_firing = pressed;
        ships.set(k, ship);
        k += 1;
    }
}

/// The weapon system of the first ship with id `id`, if there is one.
pub open spec fn system_of(ships: Seq<Spaceship>, id: Entity) -> Option<WeaponSystem>
    decreases ships.len(),
{
    if ships.len() == 0 {
        None
    } else if ships[0].id == id {
        Some(ships[0].weapons)
    } else {
        system_of(ships.drop_first(), id)
    }
}

fn find_system(ships: &Vec<Spaceship>, id: Entity) -> (r: Option<WeaponSystem>)
    ensures
        r == system_of(ships@, id),
{
    let mut i: usize = 0;
    assert(ships@.skip(0) == ships@);
    while i < ships.len()
        invariant
            0 <= i <= ships@.len(),
            system_of(ships@, id) == system_of(ships@.skip(i as int), id),
        decreases ships@.len() - i,
    {
        assert(ships@.skip(i as int).drop_first() == ships@.skip(i as int + 1));
        if ships[i].id == id {
            return Some(ships[i].weapons);
        }
        i += 1;
    }
    None
}

/// Whether the weapon in `slot` may act: its ship exists and fires it.
pub open spec fn slot_firing(ships: Seq<Spaceship>, slot: WeaponSlot) -> bool {
    match system_of(ships, slot.system) {
        Some(ws) => ws.is_firing && slot.slot == ws.current,
        None => false,
    }
}

fn is_slot_firing(ships: &Vec<Spaceship>, slot: &WeaponSlot) -> (r: bool)
    ensures
        r == slot_firing(ships@, *slot),
{
    match find_system(ships, slot.system) {
        Some(ws) => ws.is_firing(slot),
        None => false,
    }
}

/// A cannon shot leaving `pos` toward `target`.
pub open spec fn bullet_from(pos: Point, target: Point, id: Entity) -> Bullet {
    let v = scaled_vec(target.x - pos.x, target.y - pos.y, BULLET_SPEED as int);
    Bullet {
        id,
        already_hit: false,
        pos,
        velocity: Velocity { x: v.0 as i64, y: v.1 as i64 },
        collider: Collider { half_width: BULLET_HALF_SIZE, half_height: BULLET_HALF_SIZE },
        lifetime: Lifetime {
            life_left: Timer {
                duration: (BULLET_LIFETIME_SECONDS * MICROS_PER_SECOND) as u64,
                elapsed: 0,
            },
            prevent_tick: false,
        },
    }
}

/// Whether a weapon entity holding a cannon fires on this tick: its slot
/// fires and the cooldown, once ticked, has run out.
pub open spec fn cannon_fires(w: WeaponEntity, ships: Seq<Spaceship>, dt: u64) -> bool {
    match w.weapon {
        Weapon::Cannon(c) => slot_firing(ships, w.weapon_slot) && c.0.ticked(dt).is_finished(),
        Weapon::Laser(_) => false,
    }
}

/// A weapon entity after one tick of the cannon: the cooldown ticks, and
/// restarts when the cannon fires. Other weapons are left alone.
pub open spec fn cannon_ticked(w: WeaponEntity, ships: Seq<Spaceship>, dt: u64) -> WeaponEntity {
    match w.weapon {
        Weapon::Cannon(c) => {
            let t = c.0.ticked(dt);
            WeaponEntity {
                weapon: Weapon::Cannon(
                    WeaponCannon(
                        if cannon_fires(w, ships, dt) {
                            Timer { duration: t.duration, elapsed: 0 }
                        } else {
                            t
                        },
                    ),
                ),
                ..w
            }
        },
        Weapon::Laser(_) => w,
    }
}

/// The origins of the shots fired on this tick, in the order of the weapons.
pub open spec fn cannon_shots(weapons: Seq<WeaponEntity>, ships: Seq<Spaceship>, dt: u64) -> Seq<Point>
    decreases weapons.len(),
{
    if weapons.len() == 0 {
        Seq::empty()
    } else {
        let rest = cannon_shots(weapons.drop_last(), ships, dt);
        if cannon_fires(weapons.last(), ships, dt) {
            rest.push(weapons.last().pos)
        } else {
            rest
        }
    }
}

proof fn lemma_cannon_shots_len(weapons: Seq<WeaponEntity>, ships: Seq<Spaceship>, dt: u64)
    ensures
        cannon_shots(weapons, ships, dt).len() <= weapons.len(),
    decreases weapons.len(),
{
    if weapons.len() > 0 {
        lemma_cannon_shots_len(weapons.drop_last(), ships, dt);
    }
}

/// The shots fired from `origins` toward `target`, numbered from `first_id`.
pub open spec fn shots_toward(origins: Seq<Point>, target: Point, first_id: u64) -> Seq<Bullet> {
    Seq::new(origins.len(), |n: int| bullet_from(origins[n], target, (first_id + n) as u64))
}

/// Ticks every cannon's cooldown; each cannon whose slot fires and whose
/// cooldown has run out restarts it and shoots one bullet from its position
/// toward the aimed point. New bullets take consecutive ids from `next_id`.
pub fn ship_cannon(
    weapons: &mut Vec<WeaponEntity>,
    ships: &Vec<Spaceship>,
    mouse_pos: &MouseWorldPos,
    dt: u64,
    next_id: &mut u64,
    bullets: &mut Vec<Bullet>,
)
    requires
        *old(next_id) + old(weapons)@.len() <= u64::MAX,
    ensures
        final(weapons)@.len() == old(weapons)@.len(),
        forall|k: int|
            0 <= k < old(weapons)@.len() ==> final(weapons)@[k] == cannon_ticked(
                old(weapons)@[k],
                ships@,
                dt,
            ),
        final(bullets)@ == old(bullets)@ + shots_toward(
            cannon_shots(old(weapons)@, ships@, dt),
            mouse_pos.0,
            *old(next_id),
        ),
        *final(next_id) == *old(next_id) + cannon_shots(old(weapons)@, ships@, dt).len(),
{
    let target = mouse_pos.0;
    let ghost weapons0 = weapons@;
    let ghost bullets0 = bullets@;
    let ghost next0 = *next_id;
    let mut i: usize = 0;
    while i < weapons.len()
        invariant
            0 <= i <= weapons@.len(),
            weapons@.len() == weapons0.len(),
            next0 + weapons0.len() <= u64::MAX,
            forall|k: int| 0 <= k < i ==> weapons@[k] == cannon_ticked(weapons0[k], ships@, dt),
            forall|k: int| i <= k < weapons0.len() ==> weapons@[k] == weapons0[k],
            bullets@ == bullets0 + shots_toward(
                cannon_shots(weapons0.take(i as int), ships@, dt),
                target,
                next0,
            ),
            *next_id == next0 + cannon_shots(weapons0.take(i as int), ships@, dt).len(),
        decreases weapons0.len() - i,
    {
        let ghost prefix = weapons0.take(i as int);
        assert(weapons0.take(i as int + 1).drop_last() == prefix);
        proof {
            lemma_cannon_shots_len(prefix, ships@, dt);
        }
        let w = weapons[i];
        if let Weapon::Cannon(c) = w.weapon {
            let mut cooldown = c.0;
            cooldown.tick(dt);
            let fires = is_slot_firing(ships, &w.weapon_slot) && cooldown.finished();
            if fires {
                cooldown.reset();
                let (vx, vy) = scale_to(
                    target.x as i64 - w.pos.x as i64,
                    target.y as i64 - w.pos.y as i64,
                    BULLET_SPEED,
                );
                let bullet = Bullet {
                    id: *next_id,
                    already_hit: false,
                    pos: w.pos,
                    velocity: Velocity { x: vx, y: vy },
                    collider: Collider { half_width: BULLET_HALF_SIZE, half_height: BULLET_HALF_SIZE },
                    lifetime: Lifetime::seconds(BULLET_LIFETIME_SECONDS),
                };
                bullets.push(bullet);
                *next_id = *next_id + 1;
                let ghost shots = cannon_shots(prefix, ships@, dt);
                assert(cannon_shots(weapons0.take(i as int + 1), ships@, dt) == shots.push(w.pos));
                assert(shots_toward(shots.push(w.pos), target, next0) =~= shots_toward(
                    shots,
                    target,
                    next0,
                ).push(bullet));
            }
            weapons.set(i, WeaponEntity { weapon: Weapon::Cannon(WeaponCannon(cooldown)), ..w });
        }
        i += 1;
    }
    assert(weapons0.take(i as int) == weapons0);
}

/// The direction from `pos` toward `target`, at the aim scale.
pub open spec fn aim_from(pos: Point, target: Point) -> Direction {
    let v = scaled_vec(target.x - pos.x, target.y - pos.y, AIM_SCALE as int);
    Direction { x: v.0 as i16, y: v.1 as i16 }
}

/// Where the player aims, in world coordinates.
#[derive(Clone, Copy, Debug, PartialEq, Eq, Structural)]
pub struct MouseWorldPos(pub Point);

impl MouseWorldPos {
    /// The direction from `pos` toward the aimed point, at the aim scale.
    pub fn dir_from(&self, pos: Point) -> (r: Direction)
        ensures
            r == aim_from(pos, self.0),
    {
        let (x, y) = scale_to(self.0.x as i64 - pos.x as i64, self.0.y as i64 - pos.y as i64, AIM_SCALE);
        Direction { x: x as i16, y: y as i16 }
    }
}

/// A weapon entity after the laser update: a laser fires toward `target`
/// while its slot fires and is idle otherwise. Other weapons are left alone.
pub open spec fn laser_aimed(w: WeaponEntity, ships: Seq<Spaceship>, target: Point) -> WeaponEntity {
    match w.weapon {
        Weapon::Laser(_) => WeaponEntity {
            weapon: Weapon::Laser(
                if slot_firing(ships, w.weapon_slot) {
                    WeaponLaser::Firing(aim_from(w.pos, target))
                } else {
                    WeaponLaser::Idle
                },
            ),
            ..w
        },
        Weapon::Cannon(_) => w,
    }
}

/// Sets every laser to fire toward the aimed point when its slot fires, and to idle
/// otherwise. The direction is taken afresh on each tick.
pub fn ship_laser(weapons: &mut Vec<WeaponEntity>, ships: &Vec<Spaceship>, mouse_pos: &MouseWorldPos)
    ensures
        final(weapons)@.len() == old(weapons)@.len(),
        forall|k: int|
            0 <= k < old(weapons)@.len() ==> final(weapons)@[k] == laser_aimed(
                old(weapons)@[k],
                ships@,
                mouse_pos.0,
            ),
{
    let target = mouse_pos.0;
    let ghost weapons0 = weapons@;
    let mut i: usize = 0;
    while i < weapons.len()
        invariant
            0 <= i <= weapons@.len(),
            weapons@.len() == weapons0.len(),
            target == mouse_pos.0,
            forall|k: int| 0 <= k < i ==> weapons@[k] == laser_aimed(weapons0[k], ships@, target),
            forall|k: int| i <= k < weapons0.len() ==> weapons@[k] == weapons0[k],
        decreases weapons0.len() - i,
    {
        let w = weapons[i];
        if let Weapon::Laser(_) = w.weapon {
            let state = if is_slot_firing(ships, &w.weapon_slot) {
                WeaponLaser::Firing(mouse_pos.dir_from(w.pos))
            } else {
                WeaponLaser::Idle
            };
            weapons.set(i, WeaponEntity { weapon: Weapon::Laser(state), ..w });
        }
        i += 1;
    }
}


/// The position of the first ship with id `id`, if there is one.
pub open spec fn ship_position(ships: Seq<Spaceship>, id: Entity) -> Option<Point>
    decreases ships.len(),
{
    if ships.len() == 0 {
        None
    } else if ships[0].id == id {
        Some(ships[0].pos)
    } else {
        ship_position(ships.drop_first(), id)
    }
}

fn find_ship_position(ships: &Vec<Spaceship>, id: Entity) -> (r: Option<Point>)
    ensures
        r == ship_position(ships@, id),
{
    let mut i: usize = 0;
    assert(ships@.skip(0) == ships@);
    while i < ships.len()
        invariant
            0 <= i <= ships@.len(),
            ship_position(ships@, id) == ship_position(ships@.skip(i as int), id),
        decreases ships@.len() - i,
    {
        assert(ships@.skip(i as int).drop_first() == ships@.skip(i as int + 1));
        if ships[i].id == id {
            return Some(ships[i].pos);
        }
        i += 1;
    }
    None
}

/// A weapon slot entity placed on its ship; one whose ship is gone stays
/// where it is.
pub open spec fn placed(w: WeaponEntity, ships: Seq<Spaceship>) -> WeaponEntity {
    match ship_position(ships, w.weapon_slot.system) {
        Some(p) => WeaponEntity { pos: p, ..w },
        None => w,
    }
}

/// Moves every weapon slot to its ship's position, the origin of its shots
/// and beams.
pub fn weapons_follow_ships(weapons: &mut Vec<WeaponEntity>, ships: &Vec<Spaceship>)
    ensures
        final(weapons)@.len() == old(weapons)@.len(),
        forall|k: int| 0 <= k < old(weapons)@.len() ==> final(weapons)@[k] == placed(old(weapons)@[k], ships@),
{
    let ghost weapons0 = weapons@;
    let mut k: usize = 0;
    while k < weapons.len()
        invariant
            0 <= k <= weapons@.len(),
            weapons@.len() == weapons0.len(),
            forall|m: int| 0 <= m < k ==> weapons@[m] == placed(weapons0[m], ships@),
            forall|m: int| k <= m < weapons0.len() ==> weapons@[m] == weapons0[m],
        decreases weapons0.len() - k,
    {
        let w = weapons[k];
        let found = find_ship_position(ships, w.weapon_slot.system);
        if let Some(p) = found {
            weapons.set(k, WeaponEntity { pos: p, ..w });
        }
        k += 1;
    }
}

} // verus!
