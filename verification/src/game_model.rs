//! The match orchestrator: owns every entity collection, the trajectory,
//! the spawner and the wallet, drives the per-tick update, and enforces the
//! placement and purchase rules.
//!
//! Each phase of a tick borrows only the fields it needs, so an entity's
//! update sees a consistent world fully updated by the earlier phases and
//! can never alias the collection it is taken from.

use vstd::prelude::*;

use crate::enemy::{spec_moved, Enemy, EnemyInfo, MAX_TICK_MS};
use crate::geometry::{spec_distance, Point, MAX_COORD};
use crate::spawner::RandomizedSpawnerWithCooldown;
use crate::tower::{
    spec_enemies_wf, spec_enemy_index, spec_has_enemy, spec_ids_unique, Aim, Projectile, Tower,
};
use crate::trajectory::Trajectory;
use crate::wallet::Wallet;

verus! {

/// The path parameter at which the road ends: an enemy past it has overrun
/// the defence and the match is over.
pub const ROAD_LEN: i64 = 100_000_000;

/// Why a tower build was rejected. A rejected build changes nothing.
#[derive(Debug, Clone, Copy, PartialEq, Eq, Structural)]
pub enum SpawnTowerErr {
    /// The requested position is within the placement gap of a standing
    /// tower.
    TooTightTowerPlacement,
    /// The wallet holds less than the tower's cost.
    NotEnoughMoney,
}

/// The match: every entity collection, the road, the spawner, the wallet
/// and the placement rule, in one place.
#[derive(Debug, Clone)]
pub struct ConcreteGameModel<T: Trajectory> {
    /// Closest two towers may stand, in micro-units.
    pub min_tower_gap: i64,
    /// The road the enemies walk.
    pub trajectory: T,
    /// The source of new enemies.
    pub spawner: RandomizedSpawnerWithCooldown,
    /// The standing towers.
    pub towers: Vec<Tower>,
    /// The live enemies; their handles are pairwise distinct.
    pub enemies: Vec<Enemy>,
    /// The projectiles in flight.
    pub projectiles: Vec<Projectile>,
    /// The player's currency.
    pub player_wallet: Wallet,
    /// The handle the next spawned enemy receives.
    pub next_enemy_id: u64,
}

/// Whether every tower of the list is well-formed.
pub open spec fn spec_towers_wf(towers: Seq<Tower>) -> bool {
    forall|i: int| 0 <= i < towers.len() ==> (#[trigger] towers[i]).wf()
}

/// Whether every projectile of the list is well-formed.
pub open spec fn spec_projectiles_wf(projectiles: Seq<Projectile>) -> bool {
    forall|i: int| 0 <= i < projectiles.len() ==> (#[trigger] projectiles[i]).wf()
}

impl<T: Trajectory> ConcreteGameModel<T> {
    /// Whether the model is one the simulation admits.
    pub open spec fn wf(self) -> bool {
        &&& self.trajectory.wf()
        &&& 0 <= self.min_tower_gap <= MAX_COORD
        &&& self.spawner.wf()
        &&& spec_towers_wf(self.towers@)
        &&& spec_enemies_wf(self.enemies@)
        &&& spec_ids_unique(self.enemies@)
        &&& spec_projectiles_wf(self.projectiles@)
        &&& forall|i: int|
            0 <= i < self.enemies@.len() ==> (#[trigger] self.enemies@[i]).spec_id()
                < self.next_enemy_id
    }

    /// Whether every live enemy of the model is alive, as the start and the
    /// end of every tick have it.
    pub open spec fn spec_all_enemies_alive(self) -> bool {
        forall|i: int| 0 <= i < self.enemies@.len() ==> !(#[trigger] self.enemies@[i]).spec_is_dead()
    }

    /// A fresh match: no entities yet, the given opening balance in the
    /// wallet.
    pub fn new(
        spawner: RandomizedSpawnerWithCooldown,
        trajectory: T,
        initial_balance: u64,
        min_tower_gap: i64,
    ) -> (m: ConcreteGameModel<T>)
        requires
            spawner.wf(),
            trajectory.wf(),
            0 <= min_tower_gap <= MAX_COORD,
        ensures
            m.wf(),
            m.spec_all_enemies_alive(),
            m.player_wallet.spec_balance() == initial_balance,
            m.towers@.len() == 0,
            m.enemies@.len() == 0,
            m.projectiles@.len() == 0,
            m.min_tower_gap == min_tower_gap,
            m.trajectory == trajectory,
            m.spawner == spawner,
    {
        let mut wallet = Wallet::default();
        wallet.add_money(initial_balance);
        ConcreteGameModel {
            min_tower_gap,
            trajectory,
            spawner,
            towers: Vec::new(),
            enemies: Vec::new(),
            projectiles: Vec::new(),
            player_wallet: wallet,
            next_enemy_id: 0,
        }
    }

    /// The road.
    pub fn trajectory(&self) -> (t: &T)
        ensures
            t == self.trajectory,
    {
        &self.trajectory
    }

    /// The live enemies.
    pub fn enemies(&self) -> (e: &Vec<Enemy>)
        ensures
            e == self.enemies,
    {
        &self.enemies
    }

    /// The standing towers.
    pub fn towers(&self) -> (t: &Vec<Tower>)
        ensures
            t == self.towers,
    {
        &self.towers
    }

    /// The projectiles in flight.
    pub fn projectiles(&self) -> (p: &Vec<Projectile>)
        ensures
            p == self.projectiles,
    {
        &self.projectiles
    }

    /// The player's wallet.
    pub fn wallet(&self) -> (w: &Wallet)
        ensures
            w == self.player_wallet,
    {
        &self.player_wallet
    }

    /// The player's wallet, for crediting and debiting.
    pub fn wallet_mut(&mut self) -> (w: &mut Wallet)
        ensures
            *w == old(self).player_wallet,
            *final(self) == (ConcreteGameModel { player_wallet: *final(w), ..*old(self) }),
    {
        &mut self.player_wallet
    }

    /// Whether the match is lost: some enemy has walked past the road end.
    pub fn is_over(&self) -> (r: bool)
        ensures
            r == exists|i: int|
                0 <= i < self.enemies@.len() && (#[trigger] self.enemies@[i]).spec_t() > ROAD_LEN,
    {
        let mut i: usize = 0;
        while i < self.enemies.len()
            invariant
                0 <= i <= self.enemies@.len(),
                forall|j: int| 0 <= j < i ==> (#[trigger] self.enemies@[j]).spec_t() <= ROAD_LEN,
            decreases self.enemies@.len() - i,
        {
            if self.enemies[i].t_position() > ROAD_LEN {
                return true;
            }
            i += 1;
        }
        false
    }

    /// Let a projectile join the match.
    pub fn spawn_projectile(&mut self, projectile: Projectile)
        requires
            old(self).wf(),
            projectile.wf(),
        ensures
            *final(self) == (ConcreteGameModel {
                projectiles: final(self).projectiles,
                ..*old(self)
            }),
            final(self).projectiles@ == old(self).projectiles@.push(projectile),
            final(self).wf(),
    {
        self.projectiles.push(projectile);
    }

    /// Let an enemy join the match under a fresh handle. When the handle
    /// space is exhausted no enemy joins.
    pub fn spawn_enemy(&mut self, enemy: Enemy)
        requires
            old(self).wf(),
            enemy.wf(),
            !enemy.spec_is_dead(),
        ensures
            final(self).wf(),
            if old(self).next_enemy_id < u64::MAX {
                &&& final(self).enemies@ == old(self).enemies@.push(
                    Enemy { id: old(self).next_enemy_id, ..enemy },
                )
                &&& final(self).next_enemy_id == old(self).next_enemy_id + 1
                &&& *final(self) == (ConcreteGameModel {
                    enemies: final(self).enemies,
                    next_enemy_id: final(self).next_enemy_id,
                    ..*old(self)
                })
            } else {
                *final(self) == *old(self)
            },
            old(self).spec_all_enemies_alive() ==> final(self).spec_all_enemies_alive(),
    {
        if self.next_enemy_id < u64::MAX {
            let with_id = enemy.with_id(self.next_enemy_id);
            self.enemies.push(with_id);
            self.next_enemy_id += 1;
        }
    }

    /// Build a tower: rejected outright when it stands too close to another
    /// tower, rejected without any debit when the wallet cannot cover its
    /// cost, and otherwise paid for and placed in one stroke.
    pub fn spawn_tower(&mut self, tower: Tower) -> (r: Result<(), SpawnTowerErr>)
        requires
            old(self).wf(),
            tower.wf(),
        ensures
            final(self).wf(),
            ({
                let too_close = exists|i: int|
                    0 <= i < old(self).towers@.len() && spec_distance(
                        (#[trigger] old(self).towers@[i]).position,
                        tower.position,
                    ) < old(self).min_tower_gap;
                if too_close {
                    &&& r == Err::<(), SpawnTowerErr>(SpawnTowerErr::TooTightTowerPlacement)
                    &&& *final(self) == *old(self)
                } else if tower.type_info.cost > old(self).player_wallet.spec_balance() {
                    &&& r == Err::<(), SpawnTowerErr>(SpawnTowerErr::NotEnoughMoney)
                    &&& *final(self) == *old(self)
                } else {
                    &&& r == Ok::<(), SpawnTowerErr>(())
                    &&& final(self).towers@ == old(self).towers@.push(tower)
                    &&& final(self).player_wallet.spec_balance() == old(
                        self,
                    ).player_wallet.spec_balance() - tower.type_info.cost
                    &&& *final(self) == (ConcreteGameModel {
                        towers: final(self).towers,
                        player_wallet: final(self).player_wallet,
                        ..*old(self)
                    })
                }
            }),
    {
        let mut i: usize = 0;
        while i < self.towers.len()
            invariant
                0 <= i <= self.towers@.len(),
                self.wf(),
                tower.wf(),
                forall|j: int|
                    0 <= j < i ==> spec_distance(
                        (#[trigger] self.towers@[j]).position,
                        tower.position,
                    ) >= self.min_tower_gap,
            decreases self.towers@.len() - i,
        {
            let standing = &self.towers[i];
            if standing.position().distance(tower.position) < self.min_tower_gap {
                return Err(SpawnTowerErr::TooTightTowerPlacement);
            }
            i += 1;
        }
        match self.player_wallet.take_money(tower.type_info.cost) {
            Ok(_) => {
                self.towers.push(tower);
                Ok(())
            },
            Err(_) => Err(SpawnTowerErr::NotEnoughMoney),
        }
    }
}

impl<T: Trajectory> ConcreteGameModel<T> {
    /// Movement phase: every enemy walks the road for the elapsed time.
    fn update_enemies(enemies: &mut Vec<Enemy>, trajectory: &T, delta_ms: u64)
        requires
            trajectory.wf(),
            delta_ms <= MAX_TICK_MS,
            spec_enemies_wf(old(enemies)@),
            spec_ids_unique(old(enemies)@),
        ensures
            final(enemies)@.len() == old(enemies)@.len(),
            forall|i: int|
                0 <= i < old(enemies)@.len() ==> final(enemies)@[i] == spec_moved(
                    #[trigger] old(enemies)@[i],
                    trajectory,
                    delta_ms as int,
                ),
            spec_enemies_wf(final(enemies)@),
            spec_ids_unique(final(enemies)@),
    {
        let ghost orig = enemies@;
        let mut i: usize = 0;
        while i < enemies.len()
            invariant
                0 <= i <= orig.len(),
                enemies@.len() == orig.len(),
                trajectory.wf(),
                delta_ms <= MAX_TICK_MS,
                spec_ids_unique(orig),
                spec_enemies_wf(orig),
                forall|j: int|
                    0 <= j < i ==> enemies@[j] == spec_moved(
                        #[trigger] orig[j],
                        trajectory,
                        delta_ms as int,
                    ),
                forall|j: int| i <= j < orig.len() ==> enemies@[j] == #[trigger] orig[j],
                spec_enemies_wf(enemies@),
            decreases orig.len() - i,
        {
            let e = &mut enemies[i];
            e.on_update(trajectory, delta_ms);
            i += 1;
        }
        proof {
            assert forall|a: int, b: int|
                0 <= a < b < enemies@.len() implies (#[trigger] enemies@[a]).spec_id() != (
            #[trigger] enemies@[b]).spec_id() by {
                assert(enemies@[a].spec_id() == orig[a].spec_id());
                assert(enemies@[b].spec_id() == orig[b].spec_id());
            }
        }
    }

    /// Targeting-and-fire phase: every tower refreshes its lock against the
    /// enemies as they stand after this tick's movement, accumulates the
    /// elapsed time and, on a full cooldown window, fires.
    fn update_towers(
        towers: &mut Vec<Tower>,
        enemies: &Vec<Enemy>,
        trajectory: &T,
        projectiles: &mut Vec<Projectile>,
        delta_ms: u64,
    )
        requires
            trajectory.wf(),
            delta_ms <= MAX_TICK_MS,
            spec_enemies_wf(enemies@),
            spec_ids_unique(enemies@),
            spec_towers_wf(old(towers)@),
            spec_projectiles_wf(old(projectiles)@),
        ensures
            final(towers)@.len() == old(towers)@.len(),
            spec_towers_wf(final(towers)@),
            forall|i: int|
                0 <= i < old(towers)@.len() ==> {
                    let before = #[trigger] old(towers)@[i];
                    let after = final(towers)@[i];
                    &&& after.position == before.position
                    &&& after.type_info == before.type_info
                    &&& crate::tower::spec_retargeted(
                        trajectory,
                        before.position,
                        before.type_info.range,
                        enemies@,
                        before.aim,
                        after.aim,
                    )
                    &&& after.cooldown_elapsed == if before.cooldown_elapsed + delta_ms
                        >= before.type_info.cooldown {
                        0int
                    } else {
                        before.cooldown_elapsed + delta_ms
                    }
                },
            spec_projectiles_wf(final(projectiles)@),
            final(projectiles)@.len() >= old(projectiles)@.len(),
            final(projectiles)@.subrange(0, old(projectiles)@.len() as int) == old(projectiles)@,
            forall|k: int|
                old(projectiles)@.len() <= k < final(projectiles)@.len()
                    ==> (#[trigger] final(projectiles)@[k]).aim.target is Some,
    {
        let ghost orig = towers@;
        let ghost orig_projectiles = projectiles@;
        let mut i: usize = 0;
        while i < towers.len()
            invariant
                0 <= i <= orig.len(),
                towers@.len() == orig.len(),
                trajectory.wf(),
                delta_ms <= MAX_TICK_MS,
                spec_enemies_wf(enemies@),
                spec_ids_unique(enemies@),
                spec_towers_wf(orig),
                spec_towers_wf(towers@),
                forall|j: int| i <= j < orig.len() ==> towers@[j] == #[trigger] orig[j],
                forall|j: int|
                    0 <= j < i ==> {
                        let before = #[trigger] orig[j];
                        let after = towers@[j];
                        &&& after.position == before.position
                        &&& after.type_info == before.type_info
                        &&& crate::tower::spec_retargeted(
                            trajectory,
                            before.position,
                            before.type_info.range,
                            enemies@,
                            before.aim,
                            after.aim,
                        )
                        &&& after.cooldown_elapsed == if before.cooldown_elapsed + delta_ms
                            >= before.type_info.cooldown {
                            0int
                        } else {
                            before.cooldown_elapsed + delta_ms
                        }
                    },
                spec_projectiles_wf(projectiles@),
                projectiles@.len() >= orig_projectiles.len(),
                projectiles@.subrange(0, orig_projectiles.len() as int) == orig_projectiles,
                forall|k: int|
                    orig_projectiles.len() <= k < projectiles@.len() ==> (#[trigger] projectiles@[k]).aim.target is Some,
            decreases orig.len() - i,
        {
            let ghost projectiles_before = projectiles@;
            let tw = &mut towers[i];
            tw.on_update(enemies, trajectory, projectiles, delta_ms);
            proof {
                assert(projectiles@.subrange(0, orig_projectiles.len() as int)
                    == projectiles_before.subrange(0, orig_projectiles.len() as int));
            }
            i += 1;
        }
    }

    /// Flight phase: every projectile homes on its lock, delivering its hit
    /// and crediting the wallet where it arrives.
    fn update_projectiles(
        projectiles: &mut Vec<Projectile>,
        enemies: &mut Vec<Enemy>,
        trajectory: &T,
        wallet: &mut Wallet,
        delta_ms: u64,
    )
        requires
            trajectory.wf(),
            delta_ms <= MAX_TICK_MS,
            spec_enemies_wf(old(enemies)@),
            spec_ids_unique(old(enemies)@),
            spec_projectiles_wf(old(projectiles)@),
        ensures
            final(projectiles)@.len() == old(projectiles)@.len(),
            spec_projectiles_wf(final(projectiles)@),
            spec_enemies_wf(final(enemies)@),
            spec_ids_unique(final(enemies)@),
            final(enemies)@.len() == old(enemies)@.len(),
            forall|i: int|
                0 <= i < old(enemies)@.len() ==> {
                    let before = #[trigger] old(enemies)@[i];
                    let after = final(enemies)@[i];
                    &&& after.spec_id() == before.spec_id()
                    &&& after.spec_info() == before.spec_info()
                    &&& after.spec_t() == before.spec_t()
                    &&& after.spec_health() <= before.spec_health()
                },
            final(wallet).spec_balance() >= old(wallet).spec_balance(),
    {
        let ghost orig_enemies = enemies@;
        let ghost orig_balance = wallet.spec_balance();
        let mut i: usize = 0;
        while i < projectiles.len()
            invariant
                0 <= i <= projectiles@.len(),
                trajectory.wf(),
                delta_ms <= MAX_TICK_MS,
                projectiles@.len() == old(projectiles)@.len(),
                spec_projectiles_wf(projectiles@),
                spec_enemies_wf(enemies@),
                spec_ids_unique(enemies@),
                enemies@.len() == orig_enemies.len(),
                forall|j: int|
                    0 <= j < orig_enemies.len() ==> {
                        let before = #[trigger] orig_enemies[j];
                        let after = enemies@[j];
                        &&& after.spec_id() == before.spec_id()
                        &&& after.spec_info() == before.spec_info()
                        &&& after.spec_t() == before.spec_t()
                        &&& after.spec_health() <= before.spec_health()
                    },
                wallet.spec_balance() >= orig_balance,
            decreases projectiles@.len() - i,
        {
            let p = &mut projectiles[i];
            p.on_update(enemies, trajectory, wallet, delta_ms);
            i += 1;
        }
    }

    /// Prune the projectiles that resolved this tick: exactly the still
    /// active ones stay.
    fn prune_inactive_projectiles(projectiles: &mut Vec<Projectile>)
        requires
            spec_projectiles_wf(old(projectiles)@),
        ensures
            spec_projectiles_wf(final(projectiles)@),
            forall|a: int|
                0 <= a < final(projectiles)@.len()
                    ==> (#[trigger] final(projectiles)@[a]).aim.target is Some,
            forall|a: int|
                0 <= a < final(projectiles)@.len() ==> old(projectiles)@.contains(
                    #[trigger] final(projectiles)@[a],
                ),
            forall|j: int|
                #![trigger old(projectiles)@[j]]
                0 <= j < old(projectiles)@.len() && old(projectiles)@[j].aim.target is Some
                    ==> exists|a: int|
                    #![trigger final(projectiles)@[a]]
                    0 <= a < final(projectiles)@.len() && final(projectiles)@[a] == old(
                        projectiles,
                    )@[j],
    {
        let ghost orig = projectiles@;
        let mut kept: Vec<Projectile> = Vec::new();
        let mut i: usize = 0;
        while i < projectiles.len()
            invariant
                0 <= i <= orig.len(),
                projectiles@ == orig,
                spec_projectiles_wf(orig),
                spec_projectiles_wf(kept@),
                forall|a: int|
                    0 <= a < kept@.len() ==> (#[trigger] kept@[a]).aim.target is Some,
                forall|a: int|
                    0 <= a < kept@.len() ==> orig.contains(#[trigger] kept@[a]),
                forall|j: int|
                    #![trigger orig[j]]
                    0 <= j < i && orig[j].aim.target is Some ==> exists|a: int|
                        #![trigger kept@[a]]
                        0 <= a < kept@.len() && kept@[a] == orig[j],
            decreases orig.len() - i,
        {
            let p = projectiles[i];
            if p.is_active() {
                let ghost kept_before = kept@;
                kept.push(p);
                proof {
                    assert forall|a: int| 0 <= a < kept@.len() implies orig.contains(
                        #[trigger] kept@[a],
                    ) by {
                        if a < kept_before.len() {
                            assert(kept@[a] == kept_before[a]);
                        } else {
                            assert(kept@[a] == orig[i as int]);
                        }
                    }
                    assert forall|j: int|
                        #![trigger orig[j]]
                        0 <= j < i + 1 && orig[j].aim.target is Some implies exists|a: int|
                        #![trigger kept@[a]]
                        0 <= a < kept@.len() && kept@[a] == orig[j] by {
                        if j < i {
                            let a = choose|a: int| #![trigger kept_before[a]] 0 <= a
                                < kept_before.len() && kept_before[a] == orig[j];
                            assert(kept@[a] == orig[j]);
                        } else {
                            assert(kept@[kept@.len() - 1] == orig[j]);
                        }
                    }
                }
            }
            i += 1;
        }
        *projectiles = kept;
    }

    /// Prune the enemies destroyed this tick: exactly the live ones stay.
    fn prune_dead_enemies(enemies: &mut Vec<Enemy>)
        requires
            spec_enemies_wf(old(enemies)@),
            spec_ids_unique(old(enemies)@),
        ensures
            spec_enemies_wf(final(enemies)@),
            spec_ids_unique(final(enemies)@),
            forall|a: int|
                0 <= a < final(enemies)@.len() ==> !(#[trigger] final(enemies)@[a]).spec_is_dead(),
            forall|a: int|
                0 <= a < final(enemies)@.len() ==> old(enemies)@.contains(
                    #[trigger] final(enemies)@[a],
                ),
            forall|j: int|
                #![trigger old(enemies)@[j]]
                0 <= j < old(enemies)@.len() && !old(enemies)@[j].spec_is_dead() ==> exists|a: int|
                    #![trigger final(enemies)@[a]]
                    0 <= a < final(enemies)@.len() && final(enemies)@[a] == old(enemies)@[j],
    {
        let ghost orig = enemies@;
        let mut kept: Vec<Enemy> = Vec::new();
        let mut i: usize = 0;
        while i < enemies.len()
            invariant
                0 <= i <= orig.len(),
                enemies@ == orig,
                spec_enemies_wf(orig),
                spec_ids_unique(orig),
                spec_enemies_wf(kept@),
                spec_ids_unique(kept@),
                forall|a: int| 0 <= a < kept@.len() ==> !(#[trigger] kept@[a]).spec_is_dead(),
                forall|a: int|
                    0 <= a < kept@.len() ==> orig.contains(#[trigger] kept@[a]),
                forall|a: int|
                    #![trigger kept@[a]]
                    0 <= a < kept@.len() ==> exists|j: int|
                        #![trigger orig[j]]
                        0 <= j < i && kept@[a] == orig[j],
                forall|j: int|
                    #![trigger orig[j]]
                    0 <= j < i && !orig[j].spec_is_dead() ==> exists|a: int|
                        #![trigger kept@[a]]
                        0 <= a < kept@.len() && kept@[a] == orig[j],
            decreases orig.len() - i,
        {
            let e = enemies[i];
            if !e.is_dead() {
                let ghost kept_before = kept@;
                kept.push(e);
                proof {
                    assert forall|a: int, b: int|
                        0 <= a < b < kept@.len() implies (#[trigger] kept@[a]).spec_id() != (
                    #[trigger] kept@[b]).spec_id() by {
                        if b < kept@.len() - 1 {
                            assert(kept@[a] == kept_before[a] && kept@[b] == kept_before[b]);
                        } else {
                            assert(kept@[b] == orig[i as int]);
                            let j = choose|j: int| #![trigger orig[j]] 0 <= j < i && kept_before[a]
                                == orig[j];
                            assert(orig[j].spec_id() != orig[i as int].spec_id());
                        }
                    }
                    assert forall|a: int| 0 <= a < kept@.len() implies orig.contains(
                        #[trigger] kept@[a],
                    ) by {
                        if a < kept_before.len() {
                            assert(kept@[a] == kept_before[a]);
                        } else {
                            assert(kept@[a] == orig[i as int]);
                        }
                    }
                    assert forall|a: int| #![trigger kept@[a]] 0 <= a < kept@.len() implies exists|
                        j: int,
                    |
                        #![trigger orig[j]]
                        0 <= j < i + 1 && kept@[a] == orig[j] by {
                        if a < kept_before.len() {
                            let j = choose|j: int| #![trigger orig[j]] 0 <= j < i && kept_before[a]
                                == orig[j];
                            assert(kept@[a] == orig[j]);
                        } else {
                            assert(kept@[a] == orig[i as int]);
                        }
                    }
                    assert forall|j: int|
                        #![trigger orig[j]]
                        0 <= j < i + 1 && !orig[j].spec_is_dead() implies exists|a: int|
                        #![trigger kept@[a]]
                        0 <= a < kept@.len() && kept@[a] == orig[j] by {
                        if j < i {
                            let a = choose|a: int| #![trigger kept_before[a]] 0 <= a
                                < kept_before.len() && kept_before[a] == orig[j];
                            assert(kept@[a] == orig[j]);
                        } else {
                            assert(kept@[kept@.len() - 1] == orig[j]);
                        }
                    }
                }
            }
            i += 1;
        }
        *enemies = kept;
    }

    /// One tick of the match, in the fixed phase order: enemies walk, towers
    /// retarget and fire, projectiles fly and resolve, the fallen and the
    /// spent are pruned, and at last the spawner may introduce one enemy.
    /// After a tick every enemy in the model is alive — so no lock dangles —
    /// towers stand exactly where they stood, every remaining projectile is
    /// in flight, and the wallet has only been credited.
    pub fn update(&mut self, delta_ms: u64)
        requires
            old(self).wf(),
            delta_ms <= MAX_TICK_MS,
        ensures
            final(self).wf(),
            final(self).spec_all_enemies_alive(),
            final(self).spec_no_dangling_aims(),
            forall|a: int|
                #![trigger final(self).enemies@[a]]
                0 <= a < final(self).enemies@.len() ==> spec_came_from_tick(
                    final(self).enemies@[a],
                    old(self).enemies@,
                    &old(self).trajectory,
                    delta_ms as int,
                ) || spec_fresh_spawn(
                    final(self).enemies@[a],
                    old(self).spawner.roster@,
                    old(self).next_enemy_id,
                ),
            final(self).towers@.len() == old(self).towers@.len(),
            forall|i: int|
                0 <= i < old(self).towers@.len() ==> (#[trigger] final(self).towers@[i]).position
                    == old(self).towers@[i].position && final(self).towers@[i].type_info == old(
                    self,
                ).towers@[i].type_info,
            forall|i: int|
                0 <= i < final(self).projectiles@.len()
                    ==> (#[trigger] final(self).projectiles@[i]).aim.target is Some,
            final(self).player_wallet.spec_balance() >= old(self).player_wallet.spec_balance(),
            final(self).min_tower_gap == old(self).min_tower_gap,
            final(self).trajectory == old(self).trajectory,
    {
        let ghost s0 = self.enemies@;
        Self::update_enemies(&mut self.enemies, &self.trajectory, delta_ms);
        let ghost s1 = self.enemies@;
        Self::update_towers(
            &mut self.towers,
            &self.enemies,
            &self.trajectory,
            &mut self.projectiles,
            delta_ms,
        );
        Self::update_projectiles(
            &mut self.projectiles,
            &mut self.enemies,
            &self.trajectory,
            &mut self.player_wallet,
            delta_ms,
        );
        let ghost s2 = self.enemies@;
        proof {
            assert(forall|j: int|
                0 <= j < s2.len() ==> (#[trigger] s2[j]).spec_id() == s1[j].spec_id()
                    && s1[j].spec_id() == s0[j].spec_id());
        }
        Self::prune_inactive_projectiles(&mut self.projectiles);
        Self::prune_dead_enemies(&mut self.enemies);
        let ghost s3 = self.enemies@;
        proof {
            assert forall|i: int| 0 <= i < s3.len() implies (#[trigger] s3[i]).spec_id()
                < self.next_enemy_id by {
                let j = choose|j: int| 0 <= j < s2.len() && s2[j] == s3[i];
                assert(s2[j].spec_id() < self.next_enemy_id);
            }
            assert forall|i: int|
                0 <= i < s3.len() implies spec_came_from_tick(
                #[trigger] s3[i],
                s0,
                &self.trajectory,
                delta_ms as int,
            ) by {
                let j = choose|j: int| 0 <= j < s2.len() && s2[j] == s3[i];
                assert(s1[j] == spec_moved(s0[j], &self.trajectory, delta_ms as int));
                assert(0 <= j < s0.len() && s3[i].spec_id() == s0[j].spec_id() && s3[i].spec_info()
                    == s0[j].spec_info() && s3[i].spec_t() == spec_moved(
                    s0[j],
                    &self.trajectory,
                    delta_ms as int,
                ).spec_t() && s3[i].spec_health() <= s0[j].spec_health());
            }
        }
        let ghost id_before_spawn = self.next_enemy_id;
        let spawned = self.spawner.on_update(delta_ms);
        match spawned {
            Some(enemy) => {
                self.spawn_enemy(enemy);
            },
            None => {},
        }
        proof {
            self.lemma_no_dangling_aims();
            assert forall|a: int|
                0 <= a < self.enemies@.len() implies spec_came_from_tick(
                #[trigger] self.enemies@[a],
                s0,
                &self.trajectory,
                delta_ms as int,
            ) || spec_fresh_spawn(
                self.enemies@[a],
                old(self).spawner.roster@,
                id_before_spawn,
            ) by {
                if a < s3.len() {
                    assert(self.enemies@[a] == s3[a]);
                } else {
                    assert(spec_fresh_spawn(
                        self.enemies@[a],
                        old(self).spawner.roster@,
                        id_before_spawn,
                    ));
                }
            }
        }
    }
}

/// Whether `e` is what one tick leaves of some enemy of `before`: the same
/// enemy under the same handle, its path position advanced exactly as the
/// arc-length walk has it, its health no higher than it was.
pub open spec fn spec_came_from_tick<T: Trajectory>(
    e: Enemy,
    before: Seq<Enemy>,
    trajectory: &T,
    delta_ms: int,
) -> bool {
    exists|j: int|
        #![trigger before[j]]
        0 <= j < before.len() && e.spec_id() == before[j].spec_id() && e.spec_info()
            == before[j].spec_info() && e.spec_t() == spec_moved(
            before[j],
            trajectory,
            delta_ms,
        ).spec_t() && e.spec_health() <= before[j].spec_health()
}

/// Whether `e` looks fresh from the spawner: at the road start, at full
/// health, of a kind drawn from the roster, under the given handle.
pub open spec fn spec_fresh_spawn(e: Enemy, roster: Seq<EnemyInfo>, id: u64) -> bool {
    &&& e.spec_id() == id
    &&& e.spec_t() == 0
    &&& e.spec_health() == e.spec_info().max_health
    &&& exists|k: int| 0 <= k < roster.len() && e.spec_info() == #[trigger] roster[k]
}

/// Whether a lock that resolves against the enemy list resolves to a live
/// enemy. A lock that does not resolve is as good as empty.
pub open spec fn spec_aim_resolves_live(enemies: Seq<Enemy>, aim: Aim) -> bool {
    (aim.target is Some && spec_has_enemy(enemies, aim.target->0)) ==> !enemies[spec_enemy_index(
        enemies,
        aim.target->0,
    )].spec_is_dead()
}

impl<T: Trajectory> ConcreteGameModel<T> {
    /// Whether no lock of the model dangles: every lock held by a tower or a
    /// projectile that refers to an enemy of the model refers to a live one.
    pub open spec fn spec_no_dangling_aims(self) -> bool {
        &&& forall|i: int|
            0 <= i < self.towers@.len() ==> spec_aim_resolves_live(
                self.enemies@,
                (#[trigger] self.towers@[i]).aim,
            )
        &&& forall|i: int|
            0 <= i < self.projectiles@.len() ==> spec_aim_resolves_live(
                self.enemies@,
                (#[trigger] self.projectiles@[i]).aim,
            )
    }

    /// No dangling aim: while every enemy of the model is alive — as the end
    /// of every tick leaves them — every lock of every tower and projectile
    /// that refers to an enemy of the model refers to a live one.
    pub proof fn lemma_no_dangling_aims(self)
        requires
            self.spec_all_enemies_alive(),
        ensures
            self.spec_no_dangling_aims(),
    {
        assert forall|i: int|
            0 <= i < self.towers@.len() implies spec_aim_resolves_live(
            self.enemies@,
            (#[trigger] self.towers@[i]).aim,
        ) by {
            let aim = self.towers@[i].aim;
            if aim.target is Some && spec_has_enemy(self.enemies@, aim.target->0) {
                let k = spec_enemy_index(self.enemies@, aim.target->0);
                assert(0 <= k < self.enemies@.len());
                assert(!self.enemies@[k].spec_is_dead());
            }
        }
        assert forall|i: int|
            0 <= i < self.projectiles@.len() implies spec_aim_resolves_live(
            self.enemies@,
            (#[trigger] self.projectiles@[i]).aim,
        ) by {
            let aim = self.projectiles@[i].aim;
            if aim.target is Some && spec_has_enemy(self.enemies@, aim.target->0) {
                let k = spec_enemy_index(self.enemies@, aim.target->0);
                assert(0 <= k < self.enemies@.len());
                assert(!self.enemies@[k].spec_is_dead());
            }
        }
    }
}

} // verus!
