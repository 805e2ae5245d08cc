use space_shooter::asteroids::{Asteroid, Shard};
use space_shooter::basics::{
    cleanup, despawn_entities, Hitpoints, Lifetime, MaximumDistanceFrom, Velocity,
};
use space_shooter::combat::{asteroids_hit_ship, bullets_hit_asteroids};
use space_shooter::geometry::{Collider, Point};
use space_shooter::laser::{HitableByLaser, LaserBeam, LaserImpact};
use space_shooter::magnet::MagnetAttractable;
use space_shooter::ship::{start_game, AppState};
use space_shooter::weapons::Bullet;
use space_shooter::world::{Commands, World};

fn rock(id: u64, x: i32, y: i32) -> Asteroid {
    Asteroid {
        id,
        pos: Point { x, y },
        velocity: Some(Velocity { x: 0, y: 0 }),
        collider: Some(Collider { half_width: 8, half_height: 8 }),
        hitpoints: Some(Hitpoints(3)),
        laser: Some(HitableByLaser::new()),
        lifetime: None,
        max_distance: MaximumDistanceFrom { anchor: 1, distance: 1200 },
        sprite_index: 0,
    }
}

fn shot(id: u64, x: i32, y: i32) -> Bullet {
    Bullet {
        id,
        already_hit: false,
        pos: Point { x, y },
        velocity: Velocity { x: 0, y: 0 },
        collider: Collider { half_width: 8, half_height: 8 },
        lifetime: Lifetime::seconds(3),
    }
}

fn new_world() -> World {
    let mut next_id = 1;
    let mut weapons = Vec::new();
    let (ship, _) = start_game(&mut next_id, &mut weapons);
    World {
        ship,
        weapons,
        asteroids: Vec::new(),
        bullets: Vec::new(),
        shards: Vec::new(),
        beams: Vec::new(),
        impacts: Vec::new(),
        next_id,
    }
}

#[test]
fn despawn_removes_only_queued_ids() {
    let mut bullets = vec![shot(1, 0, 0), shot(2, 0, 0), shot(3, 0, 0)];
    despawn_entities(&mut bullets, &vec![2, 9]);
    let ids: Vec<u64> = bullets.iter().map(|b| b.id).collect();
    assert_eq!(ids, vec![1, 3]);
}

#[test]
fn cleanup_queues_every_entity() {
    let bullets = vec![shot(4, 0, 0), shot(8, 0, 0)];
    let mut despawn = vec![1];
    cleanup(&bullets, &mut despawn);
    assert_eq!(despawn, vec![1, 4, 8]);
}

#[test]
fn queued_changes_land_after_the_pass() {
    let mut world = new_world();
    world.asteroids = vec![rock(10, 0, 0), rock(11, 500, 0)];
    world.bullets = vec![shot(20, 500, 0)];
    world.beams = vec![LaserBeam {
        id: 30,
        origin: 3,
        impacted: false,
        visible: false,
        pos: Point { x: 0, y: 0 },
        dir: space_shooter::geometry::Direction { x: 0, y: 0 },
        length: 1,
    }];
    world.impacts = vec![LaserImpact { id: 31, parent: 30, visible: false, offset: 0 }];
    let mut cmds = Commands::new();
    bullets_hit_asteroids(&mut world.asteroids, &mut world.bullets, &mut cmds.despawn);
    let state = asteroids_hit_ship(&mut world.ship, &world.asteroids, &mut cmds.wreck);
    assert_eq!(state, None);
    // nothing structural has happened yet
    assert_eq!(world.bullets.len(), 1);
    assert!(world.asteroids[0].collider.is_some());
    cmds.shards.push(Shard {
        id: 40,
        pos: Point { x: 1, y: 1 },
        velocity: Velocity { x: 0, y: 0 },
        lifetime: Lifetime::seconds(2),
        rotation: 0,
        attractable: Some(MagnetAttractable),
    });
    world.apply(cmds);
    assert!(world.bullets.is_empty());
    assert_eq!(world.asteroids.len(), 2);
    assert_eq!(world.asteroids[0].collider, None);
    assert_eq!(world.asteroids[0].lifetime, Some(Lifetime::millis(200)));
    assert_eq!(world.asteroids[1].hitpoints, Some(Hitpoints(2)));
    assert_eq!(world.ship.hitpoints, Hitpoints(90));
    assert_eq!(world.shards.len(), 1);
    assert_eq!(world.beams.len(), 1);
    assert_eq!(world.impacts.len(), 1);
}

#[test]
fn ship_death_ends_game_in_world() {
    let mut world = new_world();
    world.ship.hitpoints = Hitpoints(10);
    world.asteroids = vec![rock(10, 0, 0), rock(11, 0, 5)];
    let mut cmds = Commands::new();
    let state = asteroids_hit_ship(&mut world.ship, &world.asteroids, &mut cmds.wreck);
    assert_eq!(state, Some(AppState::Menu));
    assert!(world.ship.hitpoints.is_dead());
    world.apply(cmds);
    assert_eq!(world.asteroids[0].collider, None);
    assert!(world.asteroids[1].collider.is_some());
    let mut end = Commands::new();
    cleanup(&world.asteroids, &mut end.despawn);
    cleanup(&world.weapons, &mut end.despawn);
    world.apply(end);
    assert!(world.asteroids.is_empty());
    assert!(world.weapons.is_empty());
}
