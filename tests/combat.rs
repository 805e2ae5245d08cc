use space_shooter::asteroids::{Asteroid, Shard};
use space_shooter::basics::{Hitpoints, Lifetime, MaximumDistanceFrom, Velocity};
use space_shooter::combat::{asteroids_hit_ship, bullets_hit_asteroids, ship_eats_shards};
use space_shooter::geometry::{Collider, Point};
use space_shooter::laser::HitableByLaser;
use space_shooter::magnet::{Magnet, MagnetAttractable};
use space_shooter::ship::{AppState, Spaceship};
use space_shooter::weapons::{Bullet, WeaponSystem};

fn rock(id: u64, x: i32, y: i32, hp: u32) -> Asteroid {
    Asteroid {
        id,
        pos: Point { x, y },
        velocity: Some(Velocity { x: 0, y: 0 }),
        collider: Some(Collider { half_width: 8, half_height: 8 }),
        hitpoints: Some(Hitpoints(hp)),
        laser: Some(HitableByLaser::new()),
        lifetime: None,
        max_distance: MaximumDistanceFrom { anchor: 1, distance: 1200 },
        sprite_index: 0,
    }
}

fn shot(id: u64, x: i32, y: i32) -> Bullet {
    Bullet {
        id,
        already_hit: false,
        pos: Point { x, y },
        velocity: Velocity { x: 1000, y: 0 },
        collider: Collider { half_width: 8, half_height: 8 },
        lifetime: Lifetime::seconds(3),
    }
}

fn ship(hp: u32) -> Spaceship {
    Spaceship {
        id: 1,
        pos: Point { x: 0, y: 0 },
        velocity: Velocity { x: 0, y: 0 },
        hitpoints: Hitpoints(hp),
        collider: Collider { half_width: 8, half_height: 24 },
        weapons: WeaponSystem { current: 0, slots: 2, is_firing: false },
        magnet: Magnet { force: 250, max_distance: 150 },
        score: 0,
    }
}

fn shard(id: u64, x: i32, y: i32) -> Shard {
    Shard {
        id,
        pos: Point { x, y },
        velocity: Velocity { x: 0, y: 0 },
        lifetime: Lifetime::seconds(2),
        rotation: 0,
        attractable: Some(MagnetAttractable),
    }
}

#[test]
fn bullet_over_two_asteroids_damages_one() {
    let mut asteroids = vec![rock(10, 0, 0, 3), rock(11, 4, 0, 3)];
    let mut bullets = vec![shot(20, 2, 0)];
    let mut despawn = Vec::new();
    bullets_hit_asteroids(&mut asteroids, &mut bullets, &mut despawn);
    assert_eq!(asteroids[0].hitpoints, Some(Hitpoints(2)));
    assert_eq!(asteroids[1].hitpoints, Some(Hitpoints(3)));
    assert!(bullets[0].already_hit);
    assert_eq!(despawn, vec![20]);
    // a later pass before the despawn lands does no more damage
    bullets_hit_asteroids(&mut asteroids, &mut bullets, &mut despawn);
    assert_eq!(asteroids[0].hitpoints, Some(Hitpoints(2)));
    assert_eq!(asteroids[1].hitpoints, Some(Hitpoints(3)));
    assert_eq!(despawn, vec![20]);
}

#[test]
fn bullets_pass_wrecked_asteroids() {
    let mut wreck = rock(10, 0, 0, 3);
    wreck.collider = None;
    wreck.hitpoints = None;
    let mut asteroids = vec![wreck, rock(11, 100, 0, 1)];
    let mut bullets = vec![shot(20, 0, 0), shot(21, 100, 5), shot(22, 500, 500)];
    let mut despawn = Vec::new();
    bullets_hit_asteroids(&mut asteroids, &mut bullets, &mut despawn);
    assert_eq!(asteroids[0], wreck);
    assert_eq!(asteroids[1].hitpoints, Some(Hitpoints(0)));
    assert_eq!(despawn, vec![21]);
    assert!(!bullets[0].already_hit);
    assert!(bullets[1].already_hit);
    assert!(!bullets[2].already_hit);
}

#[test]
fn two_bullets_on_one_asteroid_saturate() {
    let mut asteroids = vec![rock(10, 0, 0, 1)];
    let mut bullets = vec![shot(20, 1, 0), shot(21, -1, 0)];
    let mut despawn = Vec::new();
    bullets_hit_asteroids(&mut asteroids, &mut bullets, &mut despawn);
    assert_eq!(asteroids[0].hitpoints, Some(Hitpoints(0)));
    assert_eq!(despawn, vec![20, 21]);
}

#[test]
fn lethal_ram_ends_game_and_stops() {
    let mut s = ship(10);
    let asteroids = vec![rock(10, 0, 10, 3), rock(11, 0, -10, 3), rock(12, 300, 0, 3)];
    let mut wreck = Vec::new();
    let state = asteroids_hit_ship(&mut s, &asteroids, &mut wreck);
    assert_eq!(state, Some(AppState::Menu));
    assert_eq!(s.hitpoints, Hitpoints(0));
    assert_eq!(wreck, vec![10]);
}

#[test]
fn ram_costs_ten_hitpoints() {
    let mut s = ship(100);
    let asteroids = vec![rock(10, 0, 10, 3), rock(11, 300, 0, 3), rock(12, 5, -30, 1)];
    let mut wreck = Vec::new();
    let state = asteroids_hit_ship(&mut s, &asteroids, &mut wreck);
    assert_eq!(state, None);
    assert_eq!(s.hitpoints, Hitpoints(80));
    assert_eq!(wreck, vec![10, 12]);
}

#[test]
fn ram_by_wrecked_asteroid_does_nothing() {
    let mut s = ship(15);
    let mut gone = rock(10, 0, 0, 0);
    gone.collider = None;
    let asteroids = vec![gone, rock(11, 0, 0, 3), rock(12, 0, 0, 3), rock(13, 0, 0, 3)];
    let mut wreck = Vec::new();
    let state = asteroids_hit_ship(&mut s, &asteroids, &mut wreck);
    assert_eq!(state, Some(AppState::Menu));
    assert_eq!(s.hitpoints, Hitpoints(0));
    assert_eq!(wreck, vec![11, 12]);
}

#[test]
fn ship_collects_close_shards() {
    let mut s = ship(100);
    let shards = vec![shard(30, 19, 0), shard(31, 20, 0), shard(32, -11, -11)];
    let mut despawn = Vec::new();
    ship_eats_shards(&mut s, &shards, &mut despawn);
    assert_eq!(despawn, vec![30, 32]);
    assert_eq!(s.score, 20);
    s.score = u32::MAX - 5;
    ship_eats_shards(&mut s, &shards, &mut despawn);
    assert_eq!(s.score, u32::MAX);
}
