use space_shooter::basics::{
    lifetime, maximum_distance_from, movement, sprite_animation, Hitpoints, Lifetime,
    MaximumDistanceFrom, SpriteAnimation, Timer, Velocity,
};
use space_shooter::asteroids::{Asteroid, Shard};
use space_shooter::geometry::{Collider, Point};
use space_shooter::magnet::MagnetAttractable;

#[test]
fn damage_saturates_at_zero() {
    let mut hp = Hitpoints(10);
    hp.damage(3);
    assert_eq!(hp, Hitpoints(7));
    assert!(!hp.is_dead());
    hp.damage(50);
    assert_eq!(hp, Hitpoints(0));
    assert!(hp.is_dead());
    hp.damage(1);
    assert_eq!(hp, Hitpoints(0));
}

#[test]
fn timer_counts_up_to_duration() {
    let mut t = Timer::new(150_000);
    t.tick(100_000);
    assert!(!t.finished());
    assert_eq!(t.elapsed, 100_000);
    t.tick(100_000);
    assert!(t.finished());
    assert_eq!(t.elapsed, 150_000);
    t.tick(u64::MAX);
    assert_eq!(t.elapsed, 150_000);
    t.reset();
    assert_eq!(t.elapsed, 0);
    assert!(!t.finished());
}

#[test]
fn lifetime_constructors() {
    let l = Lifetime::millis(200);
    assert_eq!(l.life_left.duration, 200_000);
    assert!(!l.prevent_tick);
    let s = Lifetime::seconds(2);
    assert_eq!(s.life_left.duration, 2_000_000);
    assert_eq!(s.life_left.elapsed, 0);
}

fn shard(id: u64, x: i32, y: i32, v: Velocity) -> Shard {
    Shard {
        id,
        pos: Point { x, y },
        velocity: v,
        lifetime: Lifetime::millis(200),
        rotation: 0,
        attractable: Some(MagnetAttractable),
    }
}

fn rock(id: u64, x: i32, y: i32, anchor: u64) -> Asteroid {
    Asteroid {
        id,
        pos: Point { x, y },
        velocity: None,
        collider: Some(Collider { half_width: 8, half_height: 8 }),
        hitpoints: Some(Hitpoints(3)),
        laser: None,
        lifetime: None,
        max_distance: MaximumDistanceFrom { anchor, distance: 1200 },
        sprite_index: 0,
    }
}

#[test]
fn lifetime_expires_and_prevent_tick_skips_once() {
    let still = Velocity::from(0, 0);
    let mut items = vec![shard(1, 0, 0, still), shard(2, 0, 0, still)];
    items[1].lifetime.prevent_tick = true;
    let mut despawn = Vec::new();
    lifetime(&mut items, 150_000, &mut despawn);
    assert!(despawn.is_empty());
    assert_eq!(items[0].lifetime.life_left.elapsed, 150_000);
    assert_eq!(items[1].lifetime.life_left.elapsed, 0);
    assert!(!items[1].lifetime.prevent_tick);
    lifetime(&mut items, 60_000, &mut despawn);
    assert_eq!(despawn, vec![1]);
    assert_eq!(items[1].lifetime.life_left.elapsed, 60_000);
}

#[test]
fn entities_without_lifetime_never_expire() {
    let mut rocks = vec![rock(1, 0, 0, 7)];
    let mut despawn = Vec::new();
    lifetime(&mut rocks, u64::MAX, &mut despawn);
    assert!(despawn.is_empty());
    assert_eq!(rocks[0], rock(1, 0, 0, 7));
    rocks[0].lifetime = Some(Lifetime::millis(200));
    lifetime(&mut rocks, 200_000, &mut despawn);
    assert_eq!(despawn, vec![1]);
}

#[test]
fn maximum_distance_despawns_far_or_orphaned() {
    let items = vec![
        rock(1, 1200, 0, 7),
        rock(2, 1201, 0, 7),
        rock(3, 0, 0, 99),
        rock(4, 848, 848, 7),
        rock(5, 849, 849, 7),
    ];
    let anchors = vec![(5u64, Point { x: 5000, y: 0 }), (7u64, Point { x: 0, y: 0 })];
    let mut despawn = vec![42];
    maximum_distance_from(&items, &anchors, &mut despawn);
    assert_eq!(despawn, vec![42, 2, 3, 5]);
}

#[test]
fn movement_follows_velocity() {
    let mut items = vec![
        shard(1, 0, 0, Velocity::from(1000, -500)),
        shard(2, i32::MAX - 1, 0, Velocity::from(1_000_000, 0)),
        shard(3, 5, 5, Velocity::from(-1, -1)),
    ];
    movement(&mut items, 16_000);
    assert_eq!(items[0].pos, Point { x: 16, y: -8 });
    assert_eq!(items[1].pos, Point { x: i32::MAX, y: 0 });
    assert_eq!(items[2].pos, Point { x: 5, y: 5 });
    let mut wrecks = vec![rock(9, 3, 4, 7)];
    movement(&mut wrecks, 16_000);
    assert_eq!(wrecks[0].pos, Point { x: 3, y: 4 });
}

#[test]
fn sprite_animation_wraps_frames() {
    let mut anims = vec![SpriteAnimation::new(150, 4)];
    assert_eq!(anims[0].timer.duration, 150_000);
    sprite_animation(&mut anims, 100_000);
    assert_eq!(anims[0].current, 0);
    for _ in 0..4 {
        sprite_animation(&mut anims, 150_000);
    }
    assert_eq!(anims[0].current, 0);
    sprite_animation(&mut anims, 150_000);
    assert_eq!(anims[0].current, 1);
    let mut a = SpriteAnimation::new(10, 3);
    assert_eq!(a.next(), 1);
    assert_eq!(a.next(), 2);
    assert_eq!(a.next(), 0);
}
