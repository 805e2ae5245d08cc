use vstd::prelude::*;

use crate::asteroids::{wreck_asteroids, wrecked, Asteroid, Shard};
use crate::basics::{despawn_entities, kept, Entity};
use crate::laser::{LaserBeam, LaserImpact};
use crate::ship::Spaceship;
use crate::weapons::{Bullet, WeaponEntity};

verus! {

/// Structural changes queued during a tick: entities to despawn, asteroids
/// to wreck, and new entities. Systems only queue them; `World::apply` makes
/// them, after the systems have read the stores.
pub struct Commands {
    pub despawn: Vec<Entity>,
    pub wreck: Vec<Entity>,
    pub asteroids: Vec<Asteroid>,
    pub bullets: Vec<Bullet>,
    pub shards: Vec<Shard>,
    pub beams: Vec<LaserBeam>,
    pub impacts: Vec<LaserImpact>,
}

impl Commands {
    pub fn new() -> (r: Commands)
        ensures
            r.despawn@.len() == 0,
            r.wreck@.len() == 0,
            r.asteroids@.len() == 0,
            r.bullets@.len() == 0,
            r.shards@.len() == 0,
            r.beams@.len() == 0,
            r.impacts@.len() == 0,
    {
        Commands {
            despawn: Vec::new(),
            wreck: Vec::new(),
            asteroids: Vec::new(),
            bullets: Vec::new(),
            shards: Vec::new(),
            beams: Vec::new(),
            impacts: Vec::new(),
        }
    }
}

/// Every entity of a game session, one store per kind, and the next free id.
pub struct World {
    pub ship: Spaceship,
    pub weapons: Vec<WeaponEntity>,
    pub asteroids: Vec<Asteroid>,
    pub bullets: Vec<Bullet>,
    pub shards: Vec<Shard>,
    pub beams: Vec<LaserBeam>,
    pub impacts: Vec<LaserImpact>,
    pub next_id: u64,
}

/// The asteroids with the queued wrecks made.
pub open spec fn wrecks_made(asteroids: Seq<Asteroid>, ids: Seq<Entity>) -> Seq<Asteroid> {
    Seq::new(
        asteroids.len(),
        |k: int|
            if ids.contains(asteroids[k].id) {
                wrecked(asteroids[k])
            } else {
                asteroids[k]
            },
    )
}

impl World {
    /// Makes the queued changes: first the wrecks, then the despawns in
    /// every store, then the new entities, appended in the order queued.
    /// The ship and the id counter are left alone.
    pub fn apply(&mut self, cmds: Commands)
        ensures
            final(self).ship == old(self).ship,
            final(self).next_id == old(self).next_id,
            final(self).weapons@ == kept(old(self).weapons@, cmds.despawn@),
            final(self).asteroids@ == kept(wrecks_made(old(self).asteroids@, cmds.wreck@), cmds.despawn@)
                + cmds.asteroids@,
            final(self).bullets@ == kept(old(self).bullets@, cmds.despawn@) + cmds.bullets@,
            final(self).shards@ == kept(old(self).shards@, cmds.despawn@) + cmds.shards@,
            final(self).beams@ == kept(old(self).beams@, cmds.despawn@) + cmds.beams@,
            final(self).impacts@ == kept(old(self).impacts@, cmds.despawn@) + cmds.impacts@,
    {
        let mut cmds = cmds;
        let ghost asteroids0 = self.asteroids@;
        wreck_asteroids(&mut self.asteroids, &cmds.wreck);
        assert(self.asteroids@ =~= wrecks_made(asteroids0, cmds.wreck@));
        despawn_entities(&mut self.weapons, &cmds.despawn);
        despawn_entities(&mut self.asteroids, &cmds.despawn);
        despawn_entities(&mut self.bullets, &cmds.despawn);
        despawn_entities(&mut self.shards, &cmds.despawn);
        despawn_entities(&mut self.beams, &cmds.despawn);
        despawn_entities(&mut self.impacts, &cmds.despawn);
        self.asteroids.append(&mut cmds.asteroids);
        self.bullets.append(&mut cmds.bullets);
        self.shards.append(&mut cmds.shards);
        self.beams.append(&mut cmds.beams);
        self.impacts.append(&mut cmds.impacts);
    }
}

} // verus!
