use tower_defense::assets::{basic_enemy_info, standard_enemy_roster};
use tower_defense::spawner::{BasicSpawner, RandomizedSpawnerWithCooldown, Spawner};

#[test]
fn basic_spawner_produces_its_one_kind() {
    let e = BasicSpawner {}.spawn();
    assert_eq!(e.health(), 4_000_000);
    assert_eq!(e.t_position(), 0);
    assert_eq!(e.reward(), 0);
    assert!(!e.is_dead());
}

#[test]
fn spawner_waits_for_its_window() {
    let mut s = RandomizedSpawnerWithCooldown::new(100, standard_enemy_roster());
    assert!(s.on_update(99).is_none());
    assert!(s.on_update(1).is_some());
    assert!(s.on_update(0).is_none());
}

#[test]
fn spawner_never_catches_up() {
    // However much time has passed, one window spawns one enemy.
    let mut s = RandomizedSpawnerWithCooldown::new(100, standard_enemy_roster());
    assert!(s.on_update(1_000).is_some());
    assert!(s.on_update(0).is_none());
    assert!(s.on_update(99).is_none());
}

#[test]
fn spawner_draws_from_its_roster() {
    let mut s = RandomizedSpawnerWithCooldown::new(10, vec![basic_enemy_info()]);
    let e = s.on_update(10).unwrap();
    assert_eq!(*e.type_info(), basic_enemy_info());
    assert_eq!(e.health(), 20_000_000);
    assert_eq!(e.t_position(), 0);
}

#[test]
fn spawner_with_zero_window_spawns_every_tick() {
    let mut s = RandomizedSpawnerWithCooldown::new(0, standard_enemy_roster());
    assert!(s.on_update(0).is_some());
    assert!(s.on_update(0).is_some());
}
