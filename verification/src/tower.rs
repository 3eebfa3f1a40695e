//! Towers, their targeting protocol, and the projectiles they fire.
//!
//! An aim is a handle to at most one enemy. The handle is resolved against
//! the model's enemy list each time it is read: a handle that no longer
//! resolves is as good as empty, so an aim can never dangle. Once per tick a
//! tower drops an aim that no longer points at a live enemy in range and
//! then, if empty, locks onto an in-range live enemy chosen uniformly at
//! random. A tower whose cooldown elapses fires at its lock by spawning a
//! projectile; the cooldown resets whether or not there was a lock.

use vstd::prelude::*;

use crate::damage::Damage;
use crate::enemy::{spec_take_damage, Enemy, MAX_SPEED, MAX_TICK_MS};
use crate::geometry::{spec_distance, spec_step_toward, Point, MAX_COORD};
use crate::rng::random_index;
use crate::trajectory::Trajectory;
use crate::wallet::Wallet;

verus! {

/// Longest cooldown a tower kind may have, in milliseconds.
pub const MAX_COOLDOWN_MS: u64 = 1_000_000_000;

/// Whether the enemies carry pairwise distinct handles.
pub open spec fn spec_ids_unique(enemies: Seq<Enemy>) -> bool {
    forall|i: int, j: int|
        0 <= i < j < enemies.len() ==> (#[trigger] enemies[i]).spec_id() != (
        #[trigger] enemies[j]).spec_id()
}

/// Whether every enemy of the list is well-formed.
pub open spec fn spec_enemies_wf(enemies: Seq<Enemy>) -> bool {
    forall|i: int| 0 <= i < enemies.len() ==> (#[trigger] enemies[i]).wf()
}

/// Whether some enemy of the list carries the handle.
pub open spec fn spec_has_enemy(enemies: Seq<Enemy>, id: u64) -> bool {
    exists|i: int| 0 <= i < enemies.len() && (#[trigger] enemies[i]).spec_id() == id
}

/// The position of the enemy carrying the handle.
pub open spec fn spec_enemy_index(enemies: Seq<Enemy>, id: u64) -> int {
    choose|i: int| 0 <= i < enemies.len() && (#[trigger] enemies[i]).spec_id() == id
}

/// With unique handles, any position carrying the handle is the position.
pub proof fn lemma_enemy_index_unique(enemies: Seq<Enemy>, id: u64, i: int)
    requires
        spec_ids_unique(enemies),
        0 <= i < enemies.len(),
        enemies[i].spec_id() == id,
    ensures
        spec_has_enemy(enemies, id),
        spec_enemy_index(enemies, id) == i,
{
    let j = spec_enemy_index(enemies, id);
}

/// Find the enemy carrying the handle.
fn find_enemy(enemies: &Vec<Enemy>, id: u64) -> (r: Option<usize>)
    ensures
        match r {
            Some(i) => i < enemies@.len() && enemies@[i as int].spec_id() == id,
            None => !spec_has_enemy(enemies@, id),
        },
{
    let mut i: usize = 0;
    while i < enemies.len()
        invariant
            0 <= i <= enemies@.len(),
            forall|j: int| 0 <= j < i ==> (#[trigger] enemies@[j]).spec_id() != id,
        decreases enemies@.len() - i,
    {
        if enemies[i].id() == id {
            return Some(i);
        }
        i += 1;
    }
    None
}

/// Whether the enemy is alive and within `range` of `pos`, its world
/// position read off the trajectory.
pub open spec fn spec_in_range_live<T: Trajectory>(
    traj: &T,
    pos: Point,
    range: i64,
    e: Enemy,
) -> bool {
    &&& !e.spec_is_dead()
    &&& spec_distance(traj.spec_point_at(e.spec_t() as int), pos) < range
}

/// The targeting relationship: a handle to at most one enemy.
#[derive(Debug, Clone, Copy, PartialEq, Eq, Structural)]
pub struct Aim {
    /// The handle of the locked enemy, if any.
    pub target: Option<u64>,
}

/// Whether the aim is locked onto an enemy of the list that is alive and
/// within range of the owner.
pub open spec fn spec_aim_valid<T: Trajectory>(
    traj: &T,
    pos: Point,
    range: i64,
    enemies: Seq<Enemy>,
    aim: Aim,
) -> bool {
    &&& aim.target is Some
    &&& spec_has_enemy(enemies, aim.target->0)
    &&& spec_in_range_live(traj, pos, range, enemies[spec_enemy_index(enemies, aim.target->0)])
}

impl Aim {
    /// An aim over the given handle.
    pub fn new(target: Option<u64>) -> (a: Aim)
        ensures
            a.target == target,
    {
        Aim { target }
    }

    /// Whether the aim holds a handle at all.
    pub fn is_some(&self) -> (r: bool)
        ensures
            r == (self.target is Some),
    {
        match self.target {
            Some(_) => true,
            None => false,
        }
    }

    /// The handle held, if any.
    pub fn aim(&self) -> (r: Option<u64>)
        ensures
            r == self.target,
    {
        self.target
    }

    /// Whether the aim resolves to an enemy of the list that is still alive.
    pub fn is_alive(&self, enemies: &Vec<Enemy>) -> (r: bool)
        requires
            spec_ids_unique(enemies@),
        ensures
            r == (self.target is Some && spec_has_enemy(enemies@, self.target->0) && !enemies@[
                spec_enemy_index(enemies@, self.target->0)
            ].spec_is_dead()),
    {
        match self.target {
            None => false,
            Some(id) => match find_enemy(enemies, id) {
                None => false,
                Some(i) => {
                    proof {
                        lemma_enemy_index_unique(enemies@, id, i as int);
                    }
                    !enemies[i].is_dead()
                },
            },
        }
    }

    /// Whether the aim resolves to an enemy within `range` of `pos`.
    pub fn is_in_shoot_range<T: Trajectory>(
        &self,
        pos: Point,
        range: i64,
        enemies: &Vec<Enemy>,
        trajectory: &T,
    ) -> (r: bool)
        requires
            trajectory.wf(),
            pos.wf(),
            spec_ids_unique(enemies@),
            spec_enemies_wf(enemies@),
        ensures
            r == (self.target is Some && spec_has_enemy(enemies@, self.target->0) && spec_distance(
                trajectory.spec_point_at(
                    enemies@[spec_enemy_index(enemies@, self.target->0)].spec_t() as int,
                ),
                pos,
            ) < range),
    {
        match self.target {
            None => false,
            Some(id) => match find_enemy(enemies, id) {
                None => false,
                Some(i) => {
                    proof {
                        lemma_enemy_index_unique(enemies@, id, i as int);
                    }
                    let e = &enemies[i];
                    let world = trajectory.point_from_t(e.t_position());
                    proof {
                        trajectory.lemma_point_in_world(e.spec_t() as int);
                    }
                    world.distance(pos) < range
                },
            },
        }
    }
}

/// The wallet balance after a saturating credit.
pub open spec fn spec_credited(balance: u64, amount: u64) -> int {
    if balance + amount <= u64::MAX {
        balance + amount
    } else {
        u64::MAX as int
    }
}

impl Aim {
    /// Apply one hit through the aim: a resolving lock takes the damage; a
    /// kill credits the wallet with the enemy's reward and releases the
    /// lock; an empty or stale aim does nothing.
    pub fn try_damage(
        &mut self,
        enemies: &mut Vec<Enemy>,
        damage: Damage,
        wallet: &mut Wallet,
    )
        requires
            damage.wf(),
            spec_ids_unique(old(enemies)@),
            spec_enemies_wf(old(enemies)@),
        ensures
            spec_ids_unique(final(enemies)@),
            spec_enemies_wf(final(enemies)@),
            ({
                let tgt = old(self).target;
                if tgt is Some && spec_has_enemy(old(enemies)@, tgt->0) {
                    let i = spec_enemy_index(old(enemies)@, tgt->0);
                    let hit = spec_take_damage(old(enemies)@[i], damage);
                    &&& final(enemies)@ == old(enemies)@.update(i, hit)
                    &&& if hit.spec_is_dead() {
                        &&& final(wallet).spec_balance() == spec_credited(
                            old(wallet).spec_balance(),
                            old(enemies)@[i].spec_info().reward,
                        )
                        &&& final(self).target is None
                    } else {
                        &&& *final(wallet) == *old(wallet)
                        &&& *final(self) == *old(self)
                    }
                } else {
                    &&& *final(enemies) == *old(enemies)
                    &&& *final(wallet) == *old(wallet)
                    &&& *final(self) == *old(self)
                }
            }),
    {
        let id = match self.target {
            None => {
                return ;
            },
            Some(id) => id,
        };
        let i = match find_enemy(enemies, id) {
            None => {
                return ;
            },
            Some(i) => i,
        };
        proof {
            lemma_enemy_index_unique(enemies@, id, i as int);
        }
        let reward = enemies[i].reward();
        let e = &mut enemies[i];
        e.take_damage(damage);
        let now_dead = e.is_dead();
        proof {
            assert(*final(e) == spec_take_damage(old(enemies)@[i as int], damage));
        }
        if now_dead {
            wallet.add_money(reward);
            self.target = None;
        }
    }
}

/// The stats of the projectiles a tower kind fires.
#[derive(Debug, Clone, Copy, PartialEq, Eq, Structural)]
pub struct ProjectileInfo {
    /// Flight speed, in micro-units per millisecond.
    pub speed: i64,
    /// The hit delivered on arrival.
    pub damage: Damage,
}

impl ProjectileInfo {
    /// Whether the stats are ones the simulation admits.
    pub open spec fn wf(self) -> bool {
        &&& 1 <= self.speed <= MAX_SPEED
        &&& self.damage.wf()
    }
}

/// The stats shared by all towers of one kind: a data-only table.
#[derive(Debug, Clone, Copy, PartialEq, Eq, Structural)]
pub struct TowerInfo {
    /// Time between shots, in milliseconds.
    pub cooldown: u64,
    /// Purchase price.
    pub cost: u64,
    /// Targeting radius, in micro-units.
    pub range: i64,
    /// The projectile this kind fires.
    pub projectile_info: ProjectileInfo,
}

impl TowerInfo {
    /// Whether the stats are ones the simulation admits.
    pub open spec fn wf(self) -> bool {
        &&& 1 <= self.cooldown <= MAX_COOLDOWN_MS
        &&& 0 <= self.range <= MAX_COORD
        &&& self.projectile_info.wf()
    }
}

/// One tower on the field.
#[derive(Debug, Clone, Copy)]
pub struct Tower {
    /// The current lock, refreshed every tick.
    pub aim: Aim,
    /// Where the tower stands.
    pub position: Point,
    /// Time accumulated toward the next shot, in milliseconds.
    pub cooldown_elapsed: u64,
    /// The stats of this tower's kind.
    pub type_info: TowerInfo,
}

/// How a tick's retargeting relates the new lock to the old one: a lock on
/// an in-range live enemy is kept; otherwise a new lock lands on some
/// in-range live enemy when one exists, and on nothing when none does.
pub open spec fn spec_retargeted<T: Trajectory>(
    traj: &T,
    pos: Point,
    range: i64,
    enemies: Seq<Enemy>,
    old_aim: Aim,
    new_aim: Aim,
) -> bool {
    if spec_aim_valid(traj, pos, range, enemies, old_aim) {
        new_aim == old_aim
    } else if exists|i: int|
        0 <= i < enemies.len() && spec_in_range_live(traj, pos, range, #[trigger] enemies[i]) {
        spec_aim_valid(traj, pos, range, enemies, new_aim)
    } else {
        new_aim.target is None
    }
}

impl Tower {
    /// Whether the tower is one the simulation admits.
    pub open spec fn wf(self) -> bool {
        &&& self.position.wf()
        &&& self.type_info.wf()
        &&& self.cooldown_elapsed <= self.type_info.cooldown
    }

    /// A fresh tower of the given kind, unaimed, with a spent cooldown
    /// window ready to start counting.
    pub fn new(position: Point, type_info: TowerInfo) -> (t: Tower)
        requires
            position.wf(),
            type_info.wf(),
        ensures
            t == (Tower { aim: Aim { target: None }, position, cooldown_elapsed: 0, type_info }),
            t.wf(),
    {
        Tower { aim: Aim { target: None }, position, cooldown_elapsed: 0, type_info }
    }

    /// The purchase price of this tower's kind.
    pub fn cost(&self) -> (c: u64)
        ensures
            c == self.type_info.cost,
    {
        self.type_info.cost
    }

    /// The targeting radius of this tower's kind.
    pub fn range(&self) -> (r: i64)
        ensures
            r == self.type_info.range,
    {
        self.type_info.range
    }

    /// Where the tower stands.
    pub fn position(&self) -> (p: Point)
        ensures
            p == self.position,
    {
        self.position
    }

    /// The stats of this tower's kind.
    pub fn type_info(&self) -> (i: &TowerInfo)
        ensures
            i == self.type_info,
    {
        &self.type_info
    }

    /// Refresh the lock: drop it unless it resolves to a live enemy within
    /// range, then, if empty, lock onto an in-range live enemy chosen
    /// uniformly at random among all of them.
    pub fn update_aim<T: Trajectory>(&mut self, enemies: &Vec<Enemy>, trajectory: &T)
        requires
            old(self).wf(),
            trajectory.wf(),
            spec_ids_unique(enemies@),
            spec_enemies_wf(enemies@),
        ensures
            spec_retargeted(
                trajectory,
                old(self).position,
                old(self).type_info.range,
                enemies@,
                old(self).aim,
                final(self).aim,
            ),
            *final(self) == (Tower { aim: final(self).aim, ..*old(self) }),
            final(self).wf(),
    {
        let keep = self.aim.is_in_shoot_range(
            self.position,
            self.type_info.range,
            enemies,
            trajectory,
        ) && self.aim.is_alive(enemies);
        if !keep {
            self.aim = Aim::new(None);
        } else {
            return ;
        }
        let pos = self.position;
        let range = self.type_info.range;
        let mut candidates: Vec<u64> = Vec::new();
        let mut i: usize = 0;
        while i < enemies.len()
            invariant
                0 <= i <= enemies@.len(),
                trajectory.wf(),
                pos.wf(),
                spec_enemies_wf(enemies@),
                forall|c: int|
                    0 <= c < candidates@.len() ==> spec_has_enemy(
                        enemies@,
                        #[trigger] candidates@[c],
                    ),
                forall|c: int|
                    0 <= c < candidates@.len() ==> exists|j: int|
                        0 <= j < enemies@.len() && (#[trigger] enemies@[j]).spec_id() == (
                        #[trigger] candidates@[c]) && spec_in_range_live(
                            trajectory,
                            pos,
                            range,
                            enemies@[j],
                        ),
                forall|j: int|
                    0 <= j < i && spec_in_range_live(trajectory, pos, range, #[trigger] enemies@[j])
                        ==> candidates@.len() > 0,
            decreases enemies@.len() - i,
        {
            let e = &enemies[i];
            let world = trajectory.point_from_t(e.t_position());
            proof {
                trajectory.lemma_point_in_world(e.spec_t() as int);
            }
            if !e.is_dead() && world.distance(pos) < range {
                let ghost before = candidates@;
                candidates.push(e.id());
                proof {
                    assert(spec_in_range_live(trajectory, pos, range, enemies@[i as int]));
                    assert forall|c: int| 0 <= c < candidates@.len() implies exists|j: int|
                        0 <= j < enemies@.len() && (#[trigger] enemies@[j]).spec_id() == (
                        #[trigger] candidates@[c]) && spec_in_range_live(
                            trajectory,
                            pos,
                            range,
                            enemies@[j],
                        ) by {
                        if c < before.len() {
                            assert(candidates@[c] == before[c]);
                        } else {
                            assert(candidates@[c] == enemies@[i as int].spec_id());
                            assert(0 <= i < enemies@.len() && enemies@[i as int].spec_id()
                                == candidates@[c] && spec_in_range_live(
                                trajectory,
                                pos,
                                range,
                                enemies@[i as int],
                            ));
                        }
                    }
                }
            }
            i += 1;
        }
        if candidates.len() > 0 {
            let k = random_index(candidates.len());
            let id = candidates[k];
            proof {
                let j = choose|j: int|
                    0 <= j < enemies@.len() && (#[trigger] enemies@[j]).spec_id() == id
                        && spec_in_range_live(trajectory, pos, range, enemies@[j]);
                lemma_enemy_index_unique(enemies@, id, j);
            }
            self.aim = Aim::new(Some(id));
        }
    }

    /// One tick of the tower: refresh the lock, accumulate the elapsed time,
    /// and when a whole cooldown window has passed, fire at the lock (a
    /// projectile joins `projectiles` when there is a lock) and reset the
    /// window — an idle tower spends its window all the same.
    pub fn on_update<T: Trajectory>(
        &mut self,
        enemies: &Vec<Enemy>,
        trajectory: &T,
        projectiles: &mut Vec<Projectile>,
        delta_ms: u64,
    )
        requires
            old(self).wf(),
            trajectory.wf(),
            delta_ms <= MAX_TICK_MS,
            spec_ids_unique(enemies@),
            spec_enemies_wf(enemies@),
        ensures
            final(self).wf(),
            spec_retargeted(
                trajectory,
                old(self).position,
                old(self).type_info.range,
                enemies@,
                old(self).aim,
                final(self).aim,
            ),
            final(self).position == old(self).position,
            final(self).type_info == old(self).type_info,
            ({
                let fired = old(self).cooldown_elapsed + delta_ms >= old(self).type_info.cooldown;
                &&& final(self).cooldown_elapsed == if fired {
                    0
                } else {
                    old(self).cooldown_elapsed + delta_ms
                }
                &&& final(projectiles)@ == if fired && final(self).aim.target is Some {
                    old(projectiles)@.push(
                        Projectile {
                            position: old(self).position,
                            aim: final(self).aim,
                            type_info: old(self).type_info.projectile_info,
                        },
                    )
                } else {
                    old(projectiles)@
                }
            }),
    {
        self.update_aim(enemies, trajectory);
        let elapsed = self.cooldown_elapsed + delta_ms;
        if elapsed >= self.type_info.cooldown {
            self.maybe_shoot(projectiles);
            self.cooldown_elapsed = 0;
        } else {
            self.cooldown_elapsed = elapsed;
        }
    }

    /// Fire at the lock: with a lock, a fresh projectile of this kind joins
    /// `projectiles`, aimed where the tower is aimed; without one, nothing.
    fn maybe_shoot(&self, projectiles: &mut Vec<Projectile>)
        ensures
            final(projectiles)@ == if self.aim.target is Some {
                old(projectiles)@.push(
                    Projectile {
                        position: self.position,
                        aim: self.aim,
                        type_info: self.type_info.projectile_info,
                    },
                )
            } else {
                old(projectiles)@
            },
    {
        if self.aim.is_some() {
            projectiles.push(
                Projectile {
                    position: self.position,
                    aim: self.aim,
                    type_info: self.type_info.projectile_info,
                },
            );
        }
    }
}

/// One projectile in flight.
#[derive(Debug, Clone, Copy)]
pub struct Projectile {
    /// Where the projectile is.
    pub position: Point,
    /// The lock it homes on; empty once resolved.
    pub aim: Aim,
    /// The stats of this projectile's kind.
    pub type_info: ProjectileInfo,
}

impl Projectile {
    /// Whether the projectile is one the simulation admits.
    pub open spec fn wf(self) -> bool {
        &&& self.position.wf()
        &&& self.type_info.wf()
    }

    /// A fresh projectile aimed at the enemy carrying `target`.
    pub fn new(position: Point, target: u64, type_info: ProjectileInfo) -> (p: Projectile)
        requires
            position.wf(),
            type_info.wf(),
        ensures
            p == (Projectile { position, aim: Aim { target: Some(target) }, type_info }),
            p.wf(),
    {
        Projectile { position, aim: Aim { target: Some(target) }, type_info }
    }

    /// The stats of this projectile's kind.
    pub fn type_info(&self) -> (i: &ProjectileInfo)
        ensures
            i == self.type_info,
    {
        &self.type_info
    }

    /// Where the projectile is.
    pub fn position(&self) -> (p: Point)
        ensures
            p == self.position,
    {
        self.position
    }

    /// Whether the projectile is still in flight: resolved projectiles hold
    /// no lock and are pruned at the end of the tick.
    pub fn is_active(&self) -> (r: bool)
        ensures
            r == (self.aim.target is Some),
    {
        self.aim.is_some()
    }

    /// One tick of the projectile: home on the lock's current world
    /// position. A lock that no longer resolves releases the projectile.
    /// When the remaining distance is within this tick's flight budget the
    /// projectile resolves: the enemy takes the hit, a kill credits the
    /// wallet with the reward, and the lock empties. Otherwise the
    /// projectile flies its budget straight toward the target.
    pub fn on_update<T: Trajectory>(
        &mut self,
        enemies: &mut Vec<Enemy>,
        trajectory: &T,
        wallet: &mut Wallet,
        delta_ms: u64,
    )
        requires
            old(self).wf(),
            trajectory.wf(),
            delta_ms <= MAX_TICK_MS,
            spec_ids_unique(old(enemies)@),
            spec_enemies_wf(old(enemies)@),
        ensures
            final(self).wf(),
            final(self).type_info == old(self).type_info,
            spec_ids_unique(final(enemies)@),
            spec_enemies_wf(final(enemies)@),
            ({
                let tgt = old(self).aim.target;
                if tgt is None {
                    &&& *final(self) == *old(self)
                    &&& *final(enemies) == *old(enemies)
                    &&& *final(wallet) == *old(wallet)
                } else if !spec_has_enemy(old(enemies)@, tgt->0) {
                    &&& final(self).aim.target is None
                    &&& final(self).position == old(self).position
                    &&& *final(enemies) == *old(enemies)
                    &&& *final(wallet) == *old(wallet)
                } else {
                    let i = spec_enemy_index(old(enemies)@, tgt->0);
                    let world = trajectory.spec_point_at(old(enemies)@[i].spec_t() as int);
                    let reach = spec_distance(old(self).position, world);
                    let flight = old(self).type_info.speed * delta_ms;
                    if reach <= flight {
                        let hit = spec_take_damage(old(enemies)@[i], old(self).type_info.damage);
                        &&& final(self).aim.target is None
                        &&& final(self).position == old(self).position
                        &&& final(enemies)@ == old(enemies)@.update(i, hit)
                        &&& final(wallet).spec_balance() == if hit.spec_is_dead() {
                            spec_credited(
                                old(wallet).spec_balance(),
                                old(enemies)@[i].spec_info().reward,
                            )
                        } else {
                            old(wallet).spec_balance() as int
                        }
                    } else {
                        &&& final(self).aim == old(self).aim
                        &&& final(self).position == spec_step_toward(
                            old(self).position,
                            world,
                            flight,
                        )
                        &&& *final(enemies) == *old(enemies)
                        &&& *final(wallet) == *old(wallet)
                    }
                }
            }),
    {
        let id = match self.aim.aim() {
            None => {
                return ;
            },
            Some(id) => id,
        };
        let i = match find_enemy(enemies, id) {
            None => {
                self.aim = Aim::new(None);
                return ;
            },
            Some(i) => i,
        };
        proof {
            lemma_enemy_index_unique(enemies@, id, i as int);
            assert(0 <= self.type_info.speed * delta_ms
                <= 1_000_000_000_000_000) by (nonlinear_arith)
                requires
                    0 <= self.type_info.speed <= MAX_SPEED,
                    0 <= delta_ms <= MAX_TICK_MS,
            ;
        }
        let flight: i64 = self.type_info.speed * delta_ms as i64;
        let world = trajectory.point_from_t(enemies[i].t_position());
        proof {
            trajectory.lemma_point_in_world(enemies@[i as int].spec_t() as int);
        }
        let reach = self.position.distance(world);
        if reach <= flight {
            self.on_collision(enemies, wallet);
        } else {
            self.position = self.position.step_toward(world, flight);
        }
    }

    /// Resolve on the lock: deliver the hit through the aim, credit the
    /// wallet on a kill, and release the lock either way.
    fn on_collision(&mut self, enemies: &mut Vec<Enemy>, wallet: &mut Wallet)
        requires
            old(self).wf(),
            spec_ids_unique(old(enemies)@),
            spec_enemies_wf(old(enemies)@),
        ensures
            final(self).aim.target is None,
            final(self).position == old(self).position,
            final(self).type_info == old(self).type_info,
            final(self).wf(),
            spec_ids_unique(final(enemies)@),
            spec_enemies_wf(final(enemies)@),
            ({
                let tgt = old(self).aim.target;
                if tgt is Some && spec_has_enemy(old(enemies)@, tgt->0) {
                    let i = spec_enemy_index(old(enemies)@, tgt->0);
                    let hit = spec_take_damage(old(enemies)@[i], old(self).type_info.damage);
                    &&& final(enemies)@ == old(enemies)@.update(i, hit)
                    &&& final(wallet).spec_balance() == if hit.spec_is_dead() {
                        spec_credited(
                            old(wallet).spec_balance(),
                            old(enemies)@[i].spec_info().reward,
                        )
                    } else {
                        old(wallet).spec_balance() as int
                    }
                } else {
                    &&& *final(enemies) == *old(enemies)
                    &&& *final(wallet) == *old(wallet)
                }
            }),
    {
        self.aim.try_damage(enemies, self.type_info.damage, wallet);
        self.aim = Aim::new(None);
    }
}

} // verus!
