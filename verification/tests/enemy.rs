use tower_defense::assets::{
    basic_enemy_info, kinnetic_resist_enemy_info, magic_resist_enemy_info,
};
use tower_defense::damage::{Damage, DamageType};
use tower_defense::enemy::Enemy;
use tower_defense::trajectory::LineTrajectory;

#[test]
fn fresh_enemy_is_alive_at_the_start() {
    let e = Enemy::new(basic_enemy_info());
    assert_eq!(e.health(), 20_000_000);
    assert_eq!(e.t_position(), 0);
    assert!(!e.is_dead());
    assert_eq!(e.reward(), 3);
}

#[test]
fn plain_damage_lands_whole() {
    let mut e = Enemy::new(basic_enemy_info());
    e.take_damage(Damage { value: 10_000_000, kind: DamageType::Kinnetic });
    assert_eq!(e.health(), 10_000_000);
    assert!(!e.is_dead());
}

#[test]
fn kinnetic_resist_scales_kinnetic_hits() {
    let mut e = Enemy::new(kinnetic_resist_enemy_info());
    e.take_damage(Damage { value: 10_000_000, kind: DamageType::Kinnetic });
    assert_eq!(e.health(), 17_000_000);
}

#[test]
fn kinnetic_resist_lets_magic_through() {
    let mut e = Enemy::new(kinnetic_resist_enemy_info());
    e.take_damage(Damage { value: 10_000_000, kind: DamageType::Magic });
    assert_eq!(e.health(), 10_000_000);
}

#[test]
fn magic_resist_scales_magic_hits() {
    let mut e = Enemy::new(magic_resist_enemy_info());
    e.take_damage(Damage { value: 10_000_000, kind: DamageType::Magic });
    assert_eq!(e.health(), 14_000_000);
}

#[test]
fn health_may_go_negative_and_stays_dead() {
    let mut e = Enemy::new(basic_enemy_info());
    e.take_damage(Damage { value: 25_000_000, kind: DamageType::Magic });
    assert_eq!(e.health(), -5_000_000);
    assert!(e.is_dead());
    e.take_damage(Damage { value: 1, kind: DamageType::Kinnetic });
    assert!(e.is_dead());
}

#[test]
fn one_second_on_the_line_advances_one_unit() {
    // A speed of one world unit per second, walked for one second.
    let mut e = Enemy::new(basic_enemy_info());
    e.on_update(&LineTrajectory {}, 1_000);
    assert_eq!(e.t_position(), 1_000_000);
}

#[test]
fn two_half_ticks_match_one_whole_tick() {
    let line = LineTrajectory {};
    let mut split = Enemy::new(basic_enemy_info());
    split.on_update(&line, 500);
    split.on_update(&line, 500);
    let mut whole = Enemy::new(basic_enemy_info());
    whole.on_update(&line, 1_000);
    assert_eq!(split.t_position(), whole.t_position());
    assert_eq!(split.t_position(), 1_000_000);
}

#[test]
fn movement_keeps_health() {
    let mut e = Enemy::new(basic_enemy_info());
    e.on_update(&LineTrajectory {}, 1_000);
    assert_eq!(e.health(), 20_000_000);
}
