//! Core simulation engine for a tower-defense match.
//!
//! Enemies travel along a trajectory, towers acquire targets and fire
//! projectiles at them, destroyed enemies grant currency, and the match is
//! over once an enemy walks past the end of the road.
//!
//! All world geometry is carried in fixed-point micro-units (one world unit
//! is `UNIT` micro-units) so that every rule of the simulation is stated and
//! checked over exact integer arithmetic. Durations are in milliseconds.

pub mod assets;
pub mod damage;
pub mod enemy;
pub mod game_model;
pub mod geometry;
pub mod movement;
mod rng;
pub mod selector;
pub mod spawner;
pub mod tower;
pub mod trajectory;
pub mod wallet;

pub use damage::{Damage, DamageType};
pub use enemy::{Enemy, EnemyInfo};
pub use game_model::{ConcreteGameModel, SpawnTowerErr};
pub use geometry::Point;
pub use selector::TowerSelector;
pub use spawner::{BasicSpawner, RandomizedSpawnerWithCooldown, Spawner};
pub use tower::{Aim, Projectile, ProjectileInfo, Tower, TowerInfo};
pub use trajectory::{LineTrajectory, SampledTrajectory, Trajectory};
pub use wallet::{NotEnoughMoneyErr, Wallet};
