use space_shooter::asteroids::Asteroid;
use space_shooter::basics::{Hitpoints, MaximumDistanceFrom, Timer, Velocity};
use space_shooter::geometry::{Collider, Direction, Point};
use space_shooter::laser::{
    despawn_impacts_of, laser_beam, laser_beam_init, laser_beams_hit_asteroids, laser_impact, HitableByLaser,
    LaserBeam, LaserImpact,
};
use space_shooter::weapons::{Weapon, WeaponEntity, WeaponLaser, WeaponSlot};

fn target(id: u64, x: i32, y: i32) -> Asteroid {
    Asteroid {
        id,
        pos: Point { x, y },
        velocity: Some(Velocity { x: 0, y: 0 }),
        collider: Some(Collider { half_width: 8, half_height: 8 }),
        hitpoints: Some(Hitpoints(3)),
        laser: Some(HitableByLaser::new()),
        lifetime: None,
        max_distance: MaximumDistanceFrom { anchor: 1, distance: 1200 },
        sprite_index: 0,
    }
}

fn laser_slot(id: u64, state: WeaponLaser) -> WeaponEntity {
    WeaponEntity {
        id,
        pos: Point { x: 0, y: 0 },
        weapon_slot: WeaponSlot { system: 1, slot: 1 },
        weapon: Weapon::Laser(state),
    }
}

fn beam(id: u64, origin: u64) -> LaserBeam {
    LaserBeam {
        id,
        origin,
        impacted: false,
        visible: false,
        pos: Point { x: 0, y: 0 },
        dir: Direction { x: 0, y: 0 },
        length: 1,
    }
}

fn elapsed(a: &Asteroid) -> u64 {
    a.laser.unwrap().damage_tick.elapsed
}

const RIGHT: Direction = Direction { x: 1, y: 0 };

#[test]
fn beam_hits_nearest_target_in_either_order() {
    for near_first in [true, false] {
        // the beam meets the circles at 10 and at 20 units
        let near = target(20, 26, 0);
        let far = target(21, 36, 0);
        let mut asteroids = if near_first { vec![near, far] } else { vec![far, near] };
        let weapons = vec![laser_slot(3, WeaponLaser::Firing(RIGHT))];
        let mut beams = vec![beam(4, 3)];
        let mut despawn = Vec::new();
        laser_beam(&mut beams, &weapons, &mut asteroids, 16_000, &mut despawn);
        assert!(despawn.is_empty());
        assert!(beams[0].visible);
        assert!(beams[0].impacted);
        assert_eq!(beams[0].length, 10);
        assert_eq!(beams[0].dir, RIGHT);
        let hit = asteroids.iter().find(|a| a.id == 20).unwrap();
        let missed = asteroids.iter().find(|a| a.id == 21).unwrap();
        assert_eq!(elapsed(hit), 16_000);
        assert_eq!(elapsed(missed), 0);
    }
}

#[test]
fn beam_without_target_has_full_length() {
    let mut asteroids = vec![target(20, 0, 100), target(21, -50, 0)];
    let weapons = vec![laser_slot(3, WeaponLaser::Firing(RIGHT))];
    let mut beams = vec![beam(4, 3)];
    let mut despawn = Vec::new();
    laser_beam(&mut beams, &weapons, &mut asteroids, 16_000, &mut despawn);
    assert!(beams[0].visible);
    assert!(!beams[0].impacted);
    assert_eq!(beams[0].length, 1000);
}

#[test]
fn idle_beam_is_hidden_and_orphan_beam_despawned() {
    let mut asteroids = vec![target(20, 26, 0)];
    asteroids[0].laser = Some(HitableByLaser { damage_tick: Timer { duration: 150_000, elapsed: 90_000 } });
    let weapons = vec![laser_slot(3, WeaponLaser::Idle)];
    let mut beams = vec![beam(4, 3), beam(6, 99)];
    beams[0].visible = true;
    beams[0].impacted = true;
    let mut despawn = Vec::new();
    laser_beam(&mut beams, &weapons, &mut asteroids, 16_000, &mut despawn);
    assert!(!beams[0].visible);
    assert!(!beams[0].impacted);
    assert_eq!(despawn, vec![6]);
    assert_eq!(elapsed(&asteroids[0]), 0);
}

#[test]
fn laser_damage_needs_unbroken_contact() {
    let weapons_on = vec![laser_slot(3, WeaponLaser::Firing(RIGHT))];
    let weapons_off = vec![laser_slot(3, WeaponLaser::Idle)];
    let mut beams = vec![beam(4, 3)];
    let mut despawn = Vec::new();
    let mut asteroids = vec![target(20, 26, 0)];
    // 100 ms of contact, one tick without, 100 ms again: no damage
    laser_beam(&mut beams, &weapons_on, &mut asteroids, 100_000, &mut despawn);
    laser_beams_hit_asteroids(&mut asteroids);
    laser_beam(&mut beams, &weapons_off, &mut asteroids, 16_000, &mut despawn);
    laser_beams_hit_asteroids(&mut asteroids);
    assert_eq!(elapsed(&asteroids[0]), 0);
    laser_beam(&mut beams, &weapons_on, &mut asteroids, 100_000, &mut despawn);
    laser_beams_hit_asteroids(&mut asteroids);
    assert_eq!(asteroids[0].hitpoints, Some(Hitpoints(3)));
    // 50 ms more of unbroken contact completes the period: one point of damage
    laser_beam(&mut beams, &weapons_on, &mut asteroids, 50_000, &mut despawn);
    laser_beams_hit_asteroids(&mut asteroids);
    assert_eq!(asteroids[0].hitpoints, Some(Hitpoints(2)));
    assert_eq!(elapsed(&asteroids[0]), 0);
}

#[test]
fn two_beams_on_one_target_tick_twice() {
    let mut weapons = vec![laser_slot(3, WeaponLaser::Firing(RIGHT)), laser_slot(5, WeaponLaser::Firing(RIGHT))];
    weapons[1].pos = Point { x: 0, y: 5 };
    let mut beams = vec![beam(4, 3), beam(6, 5)];
    let mut asteroids = vec![target(20, 26, 0)];
    let mut despawn = Vec::new();
    laser_beam(&mut beams, &weapons, &mut asteroids, 20_000, &mut despawn);
    assert_eq!(elapsed(&asteroids[0]), 40_000);
    assert!(beams[1].impacted);
}

#[test]
fn beams_are_created_with_impacts() {
    let mut next_id = 50;
    let mut beams = Vec::new();
    let mut impacts = Vec::new();
    laser_beam_init(&vec![3, 8], &mut next_id, &mut beams, &mut impacts);
    assert_eq!(beams.len(), 2);
    assert_eq!(beams[0].id, 50);
    assert_eq!(beams[0].origin, 3);
    assert!(!beams[0].visible);
    assert_eq!(impacts[0], LaserImpact { id: 51, parent: 50, visible: false, offset: 0 });
    assert_eq!(beams[1].id, 52);
    assert_eq!(beams[1].origin, 8);
    assert_eq!(impacts[1].parent, 52);
    assert_eq!(next_id, 54);
}

#[test]
fn impact_follows_its_beam() {
    let mut b = beam(4, 3);
    b.impacted = true;
    b.length = 37;
    let beams = vec![b];
    let mut impacts = vec![
        LaserImpact { id: 5, parent: 4, visible: false, offset: 0 },
        LaserImpact { id: 7, parent: 6, visible: true, offset: 9 },
    ];
    laser_impact(&mut impacts, &beams);
    assert_eq!(impacts[0], LaserImpact { id: 5, parent: 4, visible: true, offset: 37 });
    assert_eq!(impacts[1], LaserImpact { id: 7, parent: 6, visible: true, offset: 9 });
}

#[test]
fn finished_damage_tick_costs_one_hitpoint() {
    let mut asteroids = vec![target(20, 0, 0), target(21, 0, 0), target(22, 0, 0)];
    asteroids[0].laser = Some(HitableByLaser { damage_tick: Timer { duration: 150_000, elapsed: 150_000 } });
    asteroids[1].laser = Some(HitableByLaser { damage_tick: Timer { duration: 150_000, elapsed: 149_999 } });
    asteroids[2].hitpoints = Some(Hitpoints(0));
    asteroids[2].laser = Some(HitableByLaser { damage_tick: Timer { duration: 150_000, elapsed: 150_000 } });
    laser_beams_hit_asteroids(&mut asteroids);
    assert_eq!(asteroids[0].hitpoints, Some(Hitpoints(2)));
    assert_eq!(elapsed(&asteroids[0]), 0);
    assert_eq!(asteroids[1].hitpoints, Some(Hitpoints(3)));
    assert_eq!(asteroids[2].hitpoints, Some(Hitpoints(0)));
}

#[test]
fn despawned_beam_takes_its_impact_along() {
    let impacts = vec![
        LaserImpact { id: 5, parent: 4, visible: false, offset: 0 },
        LaserImpact { id: 7, parent: 6, visible: false, offset: 0 },
    ];
    let mut despawn = vec![6];
    despawn_impacts_of(&impacts, &vec![6], &mut despawn);
    assert_eq!(despawn, vec![6, 7]);
}
