//! The stock stat tables: the enemy and tower kinds the game ships with.
//!
//! All values are in the simulation's fixed-point units: one world unit is a
//! million micro-units, speeds are micro-units per millisecond, and health
//! and damage are micro health points.

use vstd::prelude::*;

use crate::damage::{Damage, DamageType};
use crate::enemy::EnemyInfo;
use crate::tower::{ProjectileInfo, TowerInfo};

verus! {

/// The common enemy's stats, as specifications see them.
pub open spec fn spec_basic_enemy_info() -> EnemyInfo {
    EnemyInfo {
        max_health: 20_000_000,
        speed: 1_000,
        reward: 3,
        resist_kind: None,
        resist_permille: 1000,
    }
}

/// The armoured enemy's stats, as specifications see them.
pub open spec fn spec_kinnetic_resist_enemy_info() -> EnemyInfo {
    EnemyInfo {
        max_health: 20_000_000,
        speed: 1_000,
        reward: 4,
        resist_kind: Some(DamageType::Kinnetic),
        resist_permille: 300,
    }
}

/// The warded enemy's stats, as specifications see them.
pub open spec fn spec_magic_resist_enemy_info() -> EnemyInfo {
    EnemyInfo {
        max_health: 20_000_000,
        speed: 1_000,
        reward: 4,
        resist_kind: Some(DamageType::Magic),
        resist_permille: 600,
    }
}

/// The archer tower's stats, as specifications see them.
pub open spec fn spec_archer_tower_info() -> TowerInfo {
    TowerInfo {
        cooldown: 1500,
        cost: 10,
        range: 50_000_000,
        projectile_info: ProjectileInfo {
            speed: 100_000,
            damage: Damage { value: 10_000_000, kind: DamageType::Kinnetic },
        },
    }
}

/// The mage tower's stats, as specifications see them.
pub open spec fn spec_mage_tower_info() -> TowerInfo {
    TowerInfo {
        cooldown: 2000,
        cost: 10,
        range: 100_000_000,
        projectile_info: ProjectileInfo {
            speed: 50_000,
            damage: Damage { value: 5_000_000, kind: DamageType::Magic },
        },
    }
}

/// The common enemy: no resistance.
pub fn basic_enemy_info() -> (i: EnemyInfo)
    ensures
        i == spec_basic_enemy_info(),
        i.wf(),
{
    EnemyInfo {
        max_health: 20_000_000,
        speed: 1_000,
        reward: 3,
        resist_kind: None,
        resist_permille: 1000,
    }
}

/// The armoured enemy: kinnetic hits land at three tenths.
pub fn kinnetic_resist_enemy_info() -> (i: EnemyInfo)
    ensures
        i == spec_kinnetic_resist_enemy_info(),
        i.wf(),
{
    EnemyInfo {
        max_health: 20_000_000,
        speed: 1_000,
        reward: 4,
        resist_kind: Some(DamageType::Kinnetic),
        resist_permille: 300,
    }
}

/// The warded enemy: magic hits land at six tenths.
pub fn magic_resist_enemy_info() -> (i: EnemyInfo)
    ensures
        i == spec_magic_resist_enemy_info(),
        i.wf(),
{
    EnemyInfo {
        max_health: 20_000_000,
        speed: 1_000,
        reward: 4,
        resist_kind: Some(DamageType::Magic),
        resist_permille: 600,
    }
}

/// The archer tower: quick, cheap, short-ranged kinnetic shots.
pub fn archer_tower_info() -> (i: TowerInfo)
    ensures
        i == spec_archer_tower_info(),
        i.wf(),
{
    TowerInfo {
        cooldown: 1500,
        cost: 10,
        range: 50_000_000,
        projectile_info: ProjectileInfo {
            speed: 100_000,
            damage: Damage { value: 10_000_000, kind: DamageType::Kinnetic },
        },
    }
}

/// The mage tower: slower, far-reaching magic bolts.
pub fn mage_tower_info() -> (i: TowerInfo)
    ensures
        i == spec_mage_tower_info(),
        i.wf(),
{
    TowerInfo {
        cooldown: 2000,
        cost: 10,
        range: 100_000_000,
        projectile_info: ProjectileInfo {
            speed: 50_000,
            damage: Damage { value: 5_000_000, kind: DamageType::Magic },
        },
    }
}

/// The stock roster the spawner draws from.
pub fn standard_enemy_roster() -> (r: Vec<EnemyInfo>)
    ensures
        r@.len() == 3,
        r@[0] == spec_basic_enemy_info(),
        r@[1] == spec_kinnetic_resist_enemy_info(),
        r@[2] == spec_magic_resist_enemy_info(),
        forall|i: int| 0 <= i < r@.len() ==> (#[trigger] r@[i]).wf(),
{
    let mut r: Vec<EnemyInfo> = Vec::new();
    r.push(basic_enemy_info());
    r.push(kinnetic_resist_enemy_info());
    r.push(magic_resist_enemy_info());
    r
}

} // verus!
