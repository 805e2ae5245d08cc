use space_shooter::asteroids::{
    asteroid_at, asteroid_damage, shatter, spawn_asteroids, wreck_asteroids, Asteroid, Shard,
};
use space_shooter::basics::{Hitpoints, Lifetime, MaximumDistanceFrom, Velocity};
use space_shooter::geometry::{distance_squared, Collider, Point};
use space_shooter::laser::HitableByLaser;
use space_shooter::magnet::{magnets, Magnet, MagnetAttractable};
use space_shooter::ship::Spaceship;
use space_shooter::weapons::WeaponSystem;

fn rock(id: u64, x: i32, y: i32, hp: u32) -> Asteroid {
    Asteroid {
        id,
        pos: Point { x, y },
        velocity: Some(Velocity { x: 0, y: 0 }),
        collider: Some(Collider { half_width: 8, half_height: 8 }),
        hitpoints: Some(Hitpoints(hp)),
        laser: Some(HitableByLaser::new()),
        lifetime: None,
        max_distance: MaximumDistanceFrom { anchor: 1, distance: 1200 },
        sprite_index: 0,
    }
}

fn ship_at(x: i32, y: i32) -> Spaceship {
    Spaceship {
        id: 1,
        pos: Point { x, y },
        velocity: Velocity { x: 0, y: 0 },
        hitpoints: Hitpoints(100),
        collider: Collider { half_width: 8, half_height: 24 },
        weapons: WeaponSystem { current: 0, slots: 2, is_firing: false },
        magnet: Magnet { force: 250, max_distance: 150 },
        score: 0,
    }
}

fn shard(id: u64, x: i32, y: i32, v: Velocity) -> Shard {
    Shard {
        id,
        pos: Point { x, y },
        velocity: v,
        lifetime: Lifetime::seconds(2),
        rotation: 0,
        attractable: Some(MagnetAttractable),
    }
}

#[test]
fn dead_asteroid_bursts_into_five_shards() {
    let mut asteroids = vec![rock(10, 100, 200, 2), rock(11, -40, 60, 0), rock(12, 0, 0, 3)];
    let mut next_id = 500;
    let mut wreck = Vec::new();
    let mut shards = Vec::new();
    asteroid_damage(&mut asteroids, &mut next_id, &mut wreck, &mut shards);
    assert_eq!(wreck, vec![11]);
    assert_eq!(shards.len(), 5);
    assert_eq!(next_id, 505);
    for (n, s) in shards.iter().enumerate() {
        assert_eq!(s.id, 500 + n as u64);
        assert!(distance_squared(s.pos, Point { x: -40, y: 60 }) <= 200);
        assert_eq!(s.attractable, Some(MagnetAttractable));
        assert_eq!(s.lifetime.life_left.duration, 2_000_000);
        assert_eq!(s.lifetime.life_left.elapsed, 0);
        assert!(s.rotation <= 6283);
    }
    assert_eq!(asteroids[0].sprite_index, 1);
    assert_eq!(asteroids[1].sprite_index, 3);
    assert_eq!(asteroids[2].sprite_index, 0);
}

#[test]
fn wrecked_asteroid_does_not_burst_again() {
    let mut gone = rock(11, 0, 0, 0);
    gone.hitpoints = None;
    let mut asteroids = vec![gone];
    let mut next_id = 1;
    let mut wreck = Vec::new();
    let mut shards = Vec::new();
    asteroid_damage(&mut asteroids, &mut next_id, &mut wreck, &mut shards);
    assert!(wreck.is_empty());
    assert!(shards.is_empty());
}

#[test]
fn shards_leave_along_their_slots() {
    let mut next_id = 0;
    let mut shards = Vec::new();
    shatter(Point { x: 7, y: 7 }, &vec![0, 0, 0, 0, 0], &vec![1, 2, 3, 4, 5], &mut next_id, &mut shards);
    assert_eq!(shards.len(), 5);
    // the fifth slot points along the x axis
    assert_eq!(shards[4].pos, Point { x: 17, y: 7 });
    assert_eq!(shards[4].velocity, Velocity { x: 15, y: 0 });
    assert_eq!(shards[4].rotation, 5);
    // the first slot is a fifth of a turn round
    assert_eq!(shards[0].pos, Point { x: 10, y: 16 });
    assert_eq!(shards[0].velocity, Velocity { x: 4, y: 14 });
    // a full jitter turns the fifth shard an eighth of a turn clockwise
    let mut turned = Vec::new();
    shatter(Point { x: 0, y: 0 }, &vec![0, 0, 0, 0, 1000], &vec![0; 5], &mut next_id, &mut turned);
    assert_eq!(turned[4].pos, Point { x: 7, y: -7 });
    assert_eq!(next_id, 10);
}

#[test]
fn wreck_strips_combat_components() {
    let mut asteroids = vec![rock(10, 0, 0, 2), rock(11, 0, 0, 3)];
    wreck_asteroids(&mut asteroids, &vec![10]);
    let a = asteroids[0];
    assert_eq!(a.velocity, None);
    assert_eq!(a.collider, None);
    assert_eq!(a.hitpoints, None);
    assert_eq!(a.laser, None);
    assert_eq!(a.lifetime, Some(Lifetime::millis(200)));
    assert_eq!(a.sprite_index, 3);
    assert_eq!(asteroids[1], rock(11, 0, 0, 3));
}

#[test]
fn new_asteroid_heads_for_ship() {
    let ship = ship_at(50, -20);
    let a = asteroid_at(&ship, 0, true, 77);
    assert_eq!(a.id, 77);
    assert_eq!(a.pos, Point { x: 50, y: 980 });
    assert_eq!(a.velocity, Some(Velocity { x: 0, y: -100 }));
    assert_eq!(a.hitpoints, Some(Hitpoints(3)));
    assert_eq!(a.max_distance, MaximumDistanceFrom { anchor: 1, distance: 1200 });
    assert_eq!(a.laser, Some(HitableByLaser::new()));
    let b = asteroid_at(&ship, -600, false, 78);
    assert_eq!(b.pos, Point { x: -550, y: -820 });
    assert_eq!(b.velocity, Some(Velocity { x: 60, y: 80 }));
}

#[test]
fn population_is_topped_up_one_at_a_time() {
    let ship = ship_at(0, 0);
    let mut next_id = 9;
    let mut spawned = Vec::new();
    spawn_asteroids(4, &ship, &mut next_id, &mut spawned);
    assert_eq!(spawned.len(), 1);
    assert_eq!(next_id, 10);
    let a = spawned[0];
    assert_eq!(a.id, 9);
    let d = distance_squared(a.pos, ship.pos);
    assert!(d <= 1_000_000 && d > 1_000_000 - 2001);
    spawn_asteroids(5, &ship, &mut next_id, &mut spawned);
    spawn_asteroids(12, &ship, &mut next_id, &mut spawned);
    assert_eq!(spawned.len(), 1);
    assert_eq!(next_id, 10);
}

#[test]
fn magnet_overrides_velocity_in_reach_only() {
    let magnet = Magnet { force: 250, max_distance: 150 };
    let fleeing = Velocity { x: -15, y: 0 };
    let mut shards = vec![shard(1, 100, 0, fleeing), shard(2, 150, 0, fleeing), shard(3, 0, 149, fleeing)];
    shards[2].attractable = None;
    magnets(&mut shards, &vec![(Point { x: 0, y: 0 }, magnet)], 16_000);
    // 250 * 100 * 0.016 = 400 units per second, toward the magnet
    assert_eq!(shards[0].velocity, Velocity { x: -400, y: 0 });
    assert!(shards[0].lifetime.prevent_tick);
    assert_eq!(shards[1].velocity, fleeing);
    assert!(!shards[1].lifetime.prevent_tick);
    assert_eq!(shards[2].velocity, fleeing);
}

#[test]
fn nearest_magnet_wins() {
    let weak = Magnet { force: 10, max_distance: 500 };
    let strong = Magnet { force: 250, max_distance: 500 };
    let mut shards = vec![shard(1, 0, 0, Velocity { x: 0, y: 0 })];
    let field = vec![(Point { x: 0, y: 300 }, strong), (Point { x: 0, y: -100 }, weak)];
    magnets(&mut shards, &field, 1_000_000);
    assert_eq!(shards[0].velocity, Velocity { x: 0, y: -1000 });
}
