use tower_defense::assets::{archer_tower_info, basic_enemy_info, standard_enemy_roster};
use tower_defense::damage::{Damage, DamageType};
use tower_defense::enemy::{Enemy, EnemyInfo};
use tower_defense::game_model::{ConcreteGameModel, SpawnTowerErr};
use tower_defense::geometry::Point;
use tower_defense::spawner::RandomizedSpawnerWithCooldown;
use tower_defense::tower::{Projectile, ProjectileInfo, Tower, TowerInfo};
use tower_defense::trajectory::LineTrajectory;

/// A spawner that stays quiet for any test-sized stretch of time.
fn quiet_spawner() -> RandomizedSpawnerWithCooldown {
    RandomizedSpawnerWithCooldown::new(1_000_000_000, standard_enemy_roster())
}

/// An enemy kind that stands still, for predictable targeting.
fn standing_enemy_info() -> EnemyInfo {
    EnemyInfo {
        max_health: 20_000_000,
        speed: 0,
        reward: 3,
        resist_kind: None,
        resist_permille: 1000,
    }
}

#[test]
fn building_debits_once_and_rejects_tight_placement() {
    // Start with 1000; a tower costing 10 at (5, 5) leaves 990; a second
    // tower half a unit away is rejected under a gap of 2 units and the
    // balance stays 990.
    let mut m = ConcreteGameModel::new(quiet_spawner(), LineTrajectory {}, 1000, 2_000_000);
    let first = Tower::new(Point { x: 5_000_000, y: 5_000_000 }, archer_tower_info());
    assert!(m.spawn_tower(first).is_ok());
    assert_eq!(m.wallet().balance(), 990);
    assert_eq!(m.towers().len(), 1);

    let second = Tower::new(Point { x: 5_500_000, y: 5_000_000 }, archer_tower_info());
    assert_eq!(m.spawn_tower(second), Err(SpawnTowerErr::TooTightTowerPlacement));
    assert_eq!(m.wallet().balance(), 990);
    assert_eq!(m.towers().len(), 1);
}

#[test]
fn building_without_funds_is_rejected_whole() {
    let mut m = ConcreteGameModel::new(quiet_spawner(), LineTrajectory {}, 5, 2_000_000);
    let tower = Tower::new(Point { x: 0, y: 0 }, archer_tower_info());
    assert_eq!(m.spawn_tower(tower), Err(SpawnTowerErr::NotEnoughMoney));
    assert_eq!(m.wallet().balance(), 5);
    assert_eq!(m.towers().len(), 0);
}

#[test]
fn far_placement_is_accepted() {
    let mut m = ConcreteGameModel::new(quiet_spawner(), LineTrajectory {}, 1000, 2_000_000);
    let first = Tower::new(Point { x: 0, y: 0 }, archer_tower_info());
    let second = Tower::new(Point { x: 2_000_000, y: 0 }, archer_tower_info());
    assert!(m.spawn_tower(first).is_ok());
    assert!(m.spawn_tower(second).is_ok());
    assert_eq!(m.towers().len(), 2);
    assert_eq!(m.wallet().balance(), 980);
}

#[test]
fn one_second_tick_moves_the_enemy_one_unit() {
    // An enemy of speed one unit per second on the identity line road.
    let mut m = ConcreteGameModel::new(quiet_spawner(), LineTrajectory {}, 0, 2_000_000);
    m.spawn_enemy(Enemy::new(basic_enemy_info()));
    m.update(1_000);
    assert_eq!(m.enemies().len(), 1);
    assert_eq!(m.enemies()[0].t_position(), 1_000_000);
}

#[test]
fn two_fire_cycles_destroy_the_enemy_and_credit_once() {
    // A tower of range 50, cooldown 1500 ms and damage 10 against a single
    // standing enemy of 20 health: after two cycles the enemy is gone and
    // the wallet grew by the reward exactly once.
    let mut m = ConcreteGameModel::new(quiet_spawner(), LineTrajectory {}, 1000, 2_000_000);
    m.spawn_enemy(Enemy::new(standing_enemy_info()));
    let tower = Tower::new(Point { x: 10_000_000, y: 0 }, archer_tower_info());
    assert!(m.spawn_tower(tower).is_ok());
    assert_eq!(m.wallet().balance(), 990);

    m.update(1_500);
    assert_eq!(m.enemies().len(), 1);
    assert_eq!(m.enemies()[0].health(), 10_000_000);
    assert_eq!(m.wallet().balance(), 990);

    m.update(1_500);
    assert_eq!(m.enemies().len(), 0);
    assert_eq!(m.wallet().balance(), 993);
    assert_eq!(m.projectiles().len(), 0);
}

#[test]
fn tower_locks_onto_the_only_enemy_in_range() {
    let mut m = ConcreteGameModel::new(quiet_spawner(), LineTrajectory {}, 1000, 2_000_000);
    m.spawn_enemy(Enemy::new(standing_enemy_info()));
    let tower = Tower::new(Point { x: 10_000_000, y: 0 }, archer_tower_info());
    assert!(m.spawn_tower(tower).is_ok());
    m.update(1);
    assert_eq!(m.towers()[0].aim.target, Some(0));
}

#[test]
fn tower_does_not_lock_beyond_its_range() {
    let mut m = ConcreteGameModel::new(quiet_spawner(), LineTrajectory {}, 1000, 2_000_000);
    m.spawn_enemy(Enemy::new(standing_enemy_info()));
    let tower = Tower::new(Point { x: 90_000_000, y: 0 }, archer_tower_info());
    assert!(m.spawn_tower(tower).is_ok());
    m.update(1);
    assert_eq!(m.towers()[0].aim.target, None);
    assert_eq!(m.projectiles().len(), 0);
}

#[test]
fn idle_tower_spends_its_cooldown_window() {
    // With nobody in range the window still resets on firing; the next
    // window must fill before the first real shot.
    let mut m = ConcreteGameModel::new(quiet_spawner(), LineTrajectory {}, 1000, 2_000_000);
    let tower = Tower::new(Point { x: 10_000_000, y: 0 }, archer_tower_info());
    assert!(m.spawn_tower(tower).is_ok());
    m.update(1_500);
    assert_eq!(m.towers()[0].cooldown_elapsed, 0);
    assert_eq!(m.projectiles().len(), 0);
    m.spawn_enemy(Enemy::new(standing_enemy_info()));
    m.update(10);
    assert_eq!(m.towers()[0].aim.target, Some(0));
    assert_eq!(m.projectiles().len(), 0);
    assert_eq!(m.towers()[0].cooldown_elapsed, 10);
}

#[test]
fn slow_projectile_flies_straight_toward_its_target() {
    let slow_archer = TowerInfo {
        cooldown: 1_500,
        cost: 10,
        range: 50_000_000,
        projectile_info: ProjectileInfo {
            speed: 1_000,
            damage: Damage { value: 10_000_000, kind: DamageType::Kinnetic },
        },
    };
    let mut m = ConcreteGameModel::new(quiet_spawner(), LineTrajectory {}, 1000, 2_000_000);
    m.spawn_enemy(Enemy::new(standing_enemy_info()));
    assert!(m.spawn_tower(Tower::new(Point { x: 10_000_000, y: 0 }, slow_archer)).is_ok());
    m.update(1_500);
    assert_eq!(m.projectiles().len(), 1);
    assert!(m.projectiles()[0].is_active());
    assert_eq!(m.projectiles()[0].position(), Point { x: 8_500_000, y: 0 });
    assert_eq!(m.enemies()[0].health(), 20_000_000);
}

#[test]
fn wallet_mut_credits_the_model_wallet() {
    let mut m = ConcreteGameModel::new(quiet_spawner(), LineTrajectory {}, 7, 2_000_000);
    m.wallet_mut().add_money(5);
    assert_eq!(m.wallet().balance(), 12);
}

#[test]
fn spawned_projectiles_join_the_flight_list() {
    let mut m = ConcreteGameModel::new(quiet_spawner(), LineTrajectory {}, 0, 2_000_000);
    let p = Projectile::new(Point { x: 0, y: 0 }, 3, archer_tower_info().projectile_info);
    assert!(p.is_active());
    m.spawn_projectile(p);
    assert_eq!(m.projectiles().len(), 1);
    // Its lock does not resolve against an empty enemy list: the next tick
    // resolves and prunes it.
    m.update(1);
    assert_eq!(m.projectiles().len(), 0);
}

#[test]
fn match_is_over_once_an_enemy_passes_the_road_end() {
    let mut m = ConcreteGameModel::new(quiet_spawner(), LineTrajectory {}, 0, 2_000_000);
    assert!(!m.is_over());
    let mut walker = Enemy::new(basic_enemy_info());
    walker.t_position = 100_000_001;
    m.spawn_enemy(walker);
    assert!(m.is_over());
}

#[test]
fn spawner_introduces_one_enemy_per_full_window() {
    let spawner = RandomizedSpawnerWithCooldown::new(1_000, standard_enemy_roster());
    let mut m = ConcreteGameModel::new(spawner, LineTrajectory {}, 0, 2_000_000);
    m.update(999);
    assert_eq!(m.enemies().len(), 0);
    m.update(1);
    assert_eq!(m.enemies().len(), 1);
    m.update(5_000);
    assert_eq!(m.enemies().len(), 2);
}

#[test]
fn spawned_enemies_get_distinct_handles() {
    let spawner = RandomizedSpawnerWithCooldown::new(0, standard_enemy_roster());
    let mut m = ConcreteGameModel::new(spawner, LineTrajectory {}, 0, 2_000_000);
    m.update(1);
    m.update(1);
    m.update(1);
    assert_eq!(m.enemies().len(), 3);
    assert_ne!(m.enemies()[0].id(), m.enemies()[1].id());
    assert_ne!(m.enemies()[1].id(), m.enemies()[2].id());
    assert_ne!(m.enemies()[0].id(), m.enemies()[2].id());
}

#[test]
fn no_lock_dangles_after_a_tick() {
    // A tower and a projectile both lock the dying enemy; after the tick
    // every enemy in the model is alive, so any lock that still resolves
    // against the collection resolves to a live enemy.
    let mut m = ConcreteGameModel::new(quiet_spawner(), LineTrajectory {}, 20, 2_000_000);
    let mut dying = Enemy::new(standing_enemy_info());
    dying.health = 1;
    m.spawn_enemy(dying);
    m.spawn_enemy(Enemy::new(standing_enemy_info()));
    assert!(m.spawn_tower(Tower::new(Point { x: 1_000_000, y: 0 }, archer_tower_info())).is_ok());
    m.update(1_500);
    for e in m.enemies() {
        assert!(!e.is_dead());
    }
    for t in m.towers() {
        if let Some(id) = t.aim.target {
            for e in m.enemies() {
                if e.id() == id {
                    assert!(!e.is_dead());
                }
            }
        }
    }
    for p in m.projectiles() {
        assert!(p.is_active());
        if let Some(id) = p.aim.target {
            for e in m.enemies() {
                if e.id() == id {
                    assert!(!e.is_dead());
                }
            }
        }
    }
}

#[test]
fn a_destroyed_enemy_is_gone_after_the_tick() {
    let mut dying = Enemy::new(standing_enemy_info());
    dying.health = 1;
    let tower = Tower::new(Point { x: 10_000_000, y: 0 }, archer_tower_info());
    let mut m = ConcreteGameModel::new(quiet_spawner(), LineTrajectory {}, 10, 2_000_000);
    m.spawn_enemy(dying);
    assert!(m.spawn_tower(tower).is_ok());
    m.update(1_500);
    assert_eq!(m.enemies().len(), 0);
    assert_eq!(m.wallet().balance(), 3);
}
