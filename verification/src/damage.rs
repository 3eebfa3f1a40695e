//! Damage values and kinds.

use vstd::prelude::*;

verus! {

/// Largest damage value a single hit may carry, in micro health points.
pub const MAX_DAMAGE: i64 = 1_000_000_000_000;

/// The kind of a hit, matched against an enemy's resistance.
#[derive(Debug, Clone, Copy, PartialEq, Eq, Hash, Structural)]
pub enum DamageType {
    Kinnetic,
    Magic,
}

/// One hit: an amount of micro health points of a given kind.
#[derive(Debug, Clone, Copy, PartialEq, Eq, Structural)]
pub struct Damage {
    pub value: i64,
    pub kind: DamageType,
}

impl Damage {
    /// Whether the hit is one the simulation admits.
    pub open spec fn wf(self) -> bool {
        0 <= self.value <= MAX_DAMAGE
    }
}

} // verus!
