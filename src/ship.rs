use vstd::prelude::*;

use crate::basics::{Mobile, Identified, Entity, Hitpoints, Timer, Velocity};
use crate::geometry::{Collider, Point};
use crate::magnet::Magnet;
use crate::weapons::{Weapon, WeaponBundle, WeaponCannon, WeaponEntity, WeaponLaser, WeaponSlot, WeaponSystem};

verus! {

/// Whether a game is running.
#[derive(Clone, Copy, Debug, PartialEq, Eq, Structural)]
pub enum AppState {
    Menu,
    InGame,
}

/// The player's ship.
#[derive(Clone, Copy, Debug, PartialEq, Eq, Structural)]
pub struct Spaceship {
    pub id: Entity,
    pub pos: Point,
    pub velocity: Velocity,
    pub hitpoints: Hitpoints,
    pub collider: Collider,
    pub weapons: WeaponSystem,
    pub magnet: Magnet,
    pub score: u32,
}

impl Identified for Spaceship {
    open spec fn entity(&self) -> Entity {
        self.id
    }

    fn id(&self) -> (r: Entity) {
        self.id
    }
}

impl Mobile for Spaceship {
    open spec fn position(&self) -> Point {
        self.pos
    }

    open spec fn motion(&self) -> Option<Velocity> {
        Some(self.velocity)
    }

    open spec fn moved_to(self, p: Point) -> Self {
        Spaceship { pos: p, ..self }
    }

    fn pos_vel(&self) -> (r: (Point, Option<Velocity>)) {
        (self.pos, Some(self.velocity))
    }

    fn set_position(&mut self, p: Point) {
        self.pos = p;
    }
}

/// The id of the player's ship.
#[derive(Clone, Copy, Debug, PartialEq, Eq, Structural)]
pub struct PlayerSpaceship(pub Entity);

/// Hitpoints of a new ship.
pub const SHIP_HITPOINTS: u32 = 100;

/// Half-extents of the ship's box.
pub const SHIP_HALF_WIDTH: u32 = 8;

pub const SHIP_HALF_HEIGHT: u32 = 24;

/// The ship's magnet.
pub const SHIP_MAGNET_FORCE: u32 = 250;

pub const SHIP_MAGNET_RANGE: u32 = 150;

/// Weapon slots of the ship: a cannon in slot 0 and a laser in slot 1.
pub const SHIP_WEAPON_SLOTS: usize = 2;

/// The ship a game starts with, with id `id`, at the origin.
pub open spec fn new_ship(id: Entity) -> Spaceship {
    Spaceship {
        id,
        pos: Point { x: 0, y: 0 },
        velocity: Velocity { x: 0, y: 0 },
        hitpoints: Hitpoints(SHIP_HITPOINTS),
        collider: Collider { half_width: SHIP_HALF_WIDTH, half_height: SHIP_HALF_HEIGHT },
        weapons: WeaponSystem { current: 0, slots: SHIP_WEAPON_SLOTS, is_firing: false },
        magnet: Magnet { force: SHIP_MAGNET_FORCE, max_distance: SHIP_MAGNET_RANGE },
        score: 0,
    }
}

/// A weapon slot entity of ship `system`, with id `id`, at the origin.
pub open spec fn mounted(id: Entity, system: Entity, slot: usize, weapon: Weapon) -> WeaponEntity {
    WeaponEntity { id, pos: Point { x: 0, y: 0 }, weapon_slot: WeaponSlot { system, slot }, weapon }
}

fn mount(id: Entity, bundle: WeaponBundle) -> (r: WeaponEntity)
    ensures
        r == mounted(id, bundle.weapon_slot.system, bundle.weapon_slot.slot, bundle.weapon),
{
    WeaponEntity { id, pos: Point { x: 0, y: 0 }, weapon_slot: bundle.weapon_slot, weapon: bundle.weapon }
}

/// Starts a game: the ship takes id `next_id`, its cannon (slot 0) and laser
/// (slot 1) the two ids after. Returns the ship and the reference to it.
pub fn start_game(next_id: &mut u64, weapons: &mut Vec<WeaponEntity>) -> (r: (Spaceship, PlayerSpaceship))
    requires
        *old(next_id) + 3 <= u64::MAX,
    ensures
        r.0 == new_ship(*old(next_id)),
        r.1 == PlayerSpaceship(*old(next_id)),
        final(weapons)@ == old(weapons)@ + seq![
            mounted((*old(next_id) + 1) as u64, *old(next_id), 0, Weapon::Cannon(WeaponCannon(Timer { duration: crate::weapons::CANNON_COOLDOWN, elapsed: 0 }))),
            mounted((*old(next_id) + 2) as u64, *old(next_id), 1, Weapon::Laser(WeaponLaser::Idle)),
        ],
        r.0.weapons.wf(),
        *final(next_id) == *old(next_id) + 3,
{
    let id = *next_id;
    let ship = Spaceship {
        id,
        pos: Point { x: 0, y: 0 },
        velocity: Velocity { x: 0, y: 0 },
        hitpoints: Hitpoints(SHIP_HITPOINTS),
        collider: Collider { half_width: SHIP_HALF_WIDTH, half_height: SHIP_HALF_HEIGHT },
        weapons: WeaponSystem { current: 0, slots: SHIP_WEAPON_SLOTS, is_firing: false },
        magnet: Magnet { force: SHIP_MAGNET_FORCE, max_distance: SHIP_MAGNET_RANGE },
        score: 0,
    };
    let ghost weapons0 = weapons@;
    weapons.push(mount(id + 1, WeaponBundle::new(Weapon::Cannon(WeaponCannon::default()), 0, id)));
    weapons.push(mount(id + 2, WeaponBundle::new(Weapon::Laser(WeaponLaser::default()), 1, id)));
    *next_id = id + 3;
    assert(weapons@ =~= weapons0 + seq![
        mounted((id + 1) as u64, id, 0, Weapon::Cannon(WeaponCannon(Timer { duration: crate::weapons::CANNON_COOLDOWN, elapsed: 0 }))),
        mounted((id + 2) as u64, id, 1, Weapon::Laser(WeaponLaser::Idle)),
    ]);
    (ship, PlayerSpaceship(id))
}

} // verus!
