//! Spawners: they decide if and which enemy enters the match.

use vstd::prelude::*;

use crate::enemy::{Enemy, EnemyInfo, MAX_TICK_MS};
use crate::rng::random_index;
use crate::tower::MAX_COOLDOWN_MS;

verus! {

/// A source of fresh enemies, one per call.
pub trait Spawner {
    /// Produce the next enemy to enter the match.
    fn spawn(&self) -> (e: Enemy)
        ensures
            e.wf(),
            !e.spec_is_dead(),
            e.spec_t() == 0,
    ;
}

/// The simplest spawner: every call produces the same light, quick enemy.
#[derive(Debug, Clone, Copy, PartialEq, Eq, Structural)]
pub struct BasicSpawner {}

impl Spawner for BasicSpawner {
    fn spawn(&self) -> (e: Enemy) {
        Enemy::new(
            EnemyInfo {
                max_health: 4_000_000,
                speed: 5_000,
                reward: 0,
                resist_kind: None,
                resist_permille: 1000,
            },
        )
    }
}

/// A spawner on a cooldown: once a whole cooldown window has accumulated it
/// introduces exactly one enemy, of a kind chosen uniformly at random from
/// its roster, and starts the window over — never more than one enemy per
/// tick, however much time has passed.
#[derive(Debug, Clone)]
pub struct RandomizedSpawnerWithCooldown {
    /// Time accumulated toward the next spawn, in milliseconds.
    pub cooldown_elapsed: u64,
    /// Time between spawns, in milliseconds.
    pub cooldown: u64,
    /// The kinds this spawner chooses among.
    pub roster: Vec<EnemyInfo>,
}

impl RandomizedSpawnerWithCooldown {
    /// Whether the spawner is one the simulation admits.
    pub open spec fn wf(self) -> bool {
        &&& self.cooldown <= MAX_COOLDOWN_MS
        &&& self.cooldown_elapsed <= self.cooldown
        &&& self.roster@.len() > 0
        &&& forall|i: int| 0 <= i < self.roster@.len() ==> (#[trigger] self.roster@[i]).wf()
    }

    /// A fresh spawner with the given window and roster, ready to start
    /// counting.
    pub fn new(cooldown_ms: u64, roster: Vec<EnemyInfo>) -> (s: RandomizedSpawnerWithCooldown)
        requires
            cooldown_ms <= MAX_COOLDOWN_MS,
            roster@.len() > 0,
            forall|i: int| 0 <= i < roster@.len() ==> (#[trigger] roster@[i]).wf(),
        ensures
            s.cooldown_elapsed == 0,
            s.cooldown == cooldown_ms,
            s.roster@ == roster@,
            s.wf(),
    {
        RandomizedSpawnerWithCooldown { cooldown_elapsed: 0, cooldown: cooldown_ms, roster }
    }

    /// One tick of the spawner: accumulate the elapsed time; once the window
    /// is full, reset it and hand back exactly one fresh enemy of a roster
    /// kind, at the road start and at full health.
    pub fn on_update(&mut self, delta_ms: u64) -> (spawned: Option<Enemy>)
        requires
            old(self).wf(),
            delta_ms <= MAX_TICK_MS,
        ensures
            final(self).wf(),
            final(self).cooldown == old(self).cooldown,
            final(self).roster@ == old(self).roster@,
            ({
                let fires = old(self).cooldown_elapsed + delta_ms >= old(self).cooldown;
                &&& final(self).cooldown_elapsed == if fires {
                    0
                } else {
                    old(self).cooldown_elapsed + delta_ms
                }
                &&& match spawned {
                    Some(e) => {
                        &&& fires
                        &&& e.wf()
                        &&& !e.spec_is_dead()
                        &&& e.spec_t() == 0
                        &&& e.spec_health() == e.spec_info().max_health
                        &&& exists|k: int|
                            0 <= k < old(self).roster@.len() && e.spec_info() == (
                            #[trigger] old(self).roster@[k])
                    },
                    None => !fires,
                }
            }),
    {
        let elapsed = self.cooldown_elapsed + delta_ms;
        if elapsed >= self.cooldown {
            self.cooldown_elapsed = 0;
            let k = random_index(self.roster.len());
            let info = self.roster[k];
            Some(Enemy::new(info))
        } else {
            self.cooldown_elapsed = elapsed;
            None
        }
    }
}

} // verus!
