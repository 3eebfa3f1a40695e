//! Enemies: health, position along the road, and the damage-response rule.
//!
//! An enemy's health only ever falls after creation; the enemy counts as
//! dead exactly when its health is at or below zero (negative health is
//! permitted and still dead). Movement follows the adaptive arc-length walk
//! of the trajectory.

use vstd::arithmetic::div_mod::{lemma_div_is_ordered, lemma_div_pos_is_pos};
use vstd::prelude::*;

use crate::damage::{Damage, DamageType};
use crate::geometry::MAX_COORD;
use crate::movement::{advance_along, spec_walk, INITIAL_STEP};
use crate::trajectory::Trajectory;

verus! {

/// Largest health pool an enemy kind may have, in micro health points.
pub const MAX_HEALTH: i64 = 1_000_000_000_000;

/// Largest speed an enemy kind may have, in micro-units per millisecond.
pub const MAX_SPEED: i64 = 1_000_000_000;

/// Longest tick the simulation accepts, in milliseconds.
pub const MAX_TICK_MS: u64 = 1_000_000;

/// Largest path parameter an enemy may reach; one probe step short of the
/// world edge, so the walk always has room for its first probe.
pub const MAX_PATH_PARAM: i64 = MAX_COORD - INITIAL_STEP;

/// The stats shared by all enemies of one kind: a data-only table.
#[derive(Debug, Clone, Copy, PartialEq, Eq, Structural)]
pub struct EnemyInfo {
    /// Health at creation, in micro health points.
    pub max_health: i64,
    /// Walking speed, in micro-units per millisecond.
    pub speed: i64,
    /// Currency granted when an enemy of this kind is destroyed.
    pub reward: u64,
    /// The damage kind this enemy resists, if any.
    pub resist_kind: Option<DamageType>,
    /// Scale applied to a resisted hit, in thousandths.
    pub resist_permille: i64,
}

impl EnemyInfo {
    /// Whether the stats are ones the simulation admits.
    pub open spec fn wf(self) -> bool {
        &&& 1 <= self.max_health <= MAX_HEALTH
        &&& 0 <= self.speed <= MAX_SPEED
        &&& 0 <= self.resist_permille <= 1000
    }
}

/// How much of a hit this enemy kind actually takes: a resisted kind is
/// scaled by `resist_permille` thousandths, any other hit lands whole.
pub open spec fn spec_damage_eval(info: EnemyInfo, damage: Damage) -> int {
    if info.resist_kind == Some(damage.kind) {
        (damage.value * info.resist_permille) / 1000
    } else {
        damage.value as int
    }
}

/// The evaluated hit is between nothing and the raw hit.
pub proof fn lemma_damage_eval_bounds(info: EnemyInfo, damage: Damage)
    requires
        info.wf(),
        damage.wf(),
    ensures
        0 <= spec_damage_eval(info, damage) <= damage.value,
{
    if info.resist_kind == Some(damage.kind) {
        let v = damage.value as int;
        let p = info.resist_permille as int;
        assert(0 <= v * p <= v * 1000) by (nonlinear_arith)
            requires
                0 <= v,
                0 <= p <= 1000,
        ;
        lemma_div_pos_is_pos(v * p, 1000);
        lemma_div_is_ordered(v * p, v * 1000, 1000);
        assert((v * 1000) / 1000 == v) by (nonlinear_arith);
    }
}

/// One enemy on the road.
#[derive(Debug, Clone, Copy)]
pub struct Enemy {
    /// Handle the model hands out; unique among the live enemies.
    pub id: u64,
    /// Remaining health, in micro health points; dead at or below zero.
    pub health: i64,
    /// Position along the trajectory, as a path parameter.
    pub t_position: i64,
    /// The stats of this enemy's kind.
    pub type_info: EnemyInfo,
}

impl Enemy {
    /// The handle as specifications see it.
    pub open spec fn spec_id(self) -> u64 {
        self.id
    }

    /// The health as specifications see it.
    pub open spec fn spec_health(self) -> i64 {
        self.health
    }

    /// The path position as specifications see it.
    pub open spec fn spec_t(self) -> i64 {
        self.t_position
    }

    /// The stats as specifications see them.
    pub open spec fn spec_info(self) -> EnemyInfo {
        self.type_info
    }

    /// Whether the enemy is one the simulation admits.
    pub open spec fn wf(self) -> bool {
        &&& self.spec_info().wf()
        &&& 0 <= self.spec_t() <= MAX_PATH_PARAM
        &&& self.spec_health() <= self.spec_info().max_health
    }

    /// Whether the enemy counts as dead.
    pub open spec fn spec_is_dead(self) -> bool {
        self.spec_health() <= 0
    }

    /// A fresh enemy of the given kind, at full health, at the road start.
    pub fn new(type_info: EnemyInfo) -> (e: Enemy)
        requires
            type_info.wf(),
        ensures
            e.wf(),
            e.spec_id() == 0,
            e.spec_health() == type_info.max_health,
            e.spec_t() == 0,
            e.spec_info() == type_info,
            !e.spec_is_dead(),
    {
        Enemy { id: 0, health: type_info.max_health, t_position: 0, type_info }
    }

    /// The same enemy under a different handle.
    pub fn with_id(self, id: u64) -> (e: Enemy)
        ensures
            e == (Enemy { id, ..self }),
            e.spec_id() == id,
    {
        Enemy { id, ..self }
    }

    /// The enemy's handle.
    pub fn id(&self) -> (r: u64)
        ensures
            r == self.spec_id(),
    {
        self.id
    }

    /// The enemy's position along the trajectory.
    pub fn t_position(&self) -> (t: i64)
        ensures
            t == self.spec_t(),
    {
        self.t_position
    }

    /// The enemy's remaining health.
    pub fn health(&self) -> (h: i64)
        ensures
            h == self.spec_health(),
    {
        self.health
    }

    /// Whether the enemy is dead: health at or below zero.
    pub fn is_dead(&self) -> (r: bool)
        ensures
            r == self.spec_is_dead(),
    {
        self.health <= 0
    }

    /// The currency granted for destroying this enemy.
    pub fn reward(&self) -> (r: u64)
        ensures
            r == self.spec_info().reward,
    {
        self.type_info.reward
    }

    /// The stats of this enemy's kind.
    pub fn type_info(&self) -> (i: &EnemyInfo)
        ensures
            i == self.spec_info(),
    {
        &self.type_info
    }
}

/// The enemy after one hit: health falls by the evaluated damage,
/// saturating at the lowest representable health; nothing else moves.
pub open spec fn spec_take_damage(e: Enemy, damage: Damage) -> Enemy {
    let drop = spec_damage_eval(e.spec_info(), damage);
    let h = if e.spec_health() - drop >= i64::MIN {
        (e.spec_health() - drop) as i64
    } else {
        i64::MIN
    };
    Enemy { health: h, ..e }
}

impl Enemy {
    /// Take one hit: health falls by the kind-evaluated damage and never
    /// rises; a dead enemy stays dead.
    pub fn take_damage(&mut self, damage: Damage)
        requires
            old(self).wf(),
            damage.wf(),
        ensures
            *final(self) == spec_take_damage(*old(self), damage),
            final(self).wf(),
            final(self).spec_health() <= old(self).spec_health(),
            old(self).spec_is_dead() ==> final(self).spec_is_dead(),
    {
        proof {
            lemma_damage_eval_bounds(self.type_info, damage);
        }
        let drop: i64 = damage_eval(&self.type_info, damage);
        self.health = if self.health >= i64::MIN + drop {
            self.health - drop
        } else {
            i64::MIN
        };
    }

    /// Walk along the trajectory for `delta_ms` milliseconds at this kind's
    /// speed: the arc-length walk spends a budget of `speed * delta_ms`
    /// micro-units, clipped at the world edge.
    pub fn on_update<T: Trajectory>(&mut self, trajectory: &T, delta_ms: u64)
        requires
            old(self).wf(),
            trajectory.wf(),
            delta_ms <= MAX_TICK_MS,
        ensures
            final(self).spec_t() == spec_walk(
                trajectory,
                old(self).spec_t() as int,
                spec_move_budget(*old(self), delta_ms as int),
                INITIAL_STEP as int,
            ),
            *final(self) == spec_moved(*old(self), trajectory, delta_ms as int),
            old(self).spec_t() <= final(self).spec_t(),
            final(self).wf(),
            final(self).spec_id() == old(self).spec_id(),
            final(self).spec_health() == old(self).spec_health(),
            final(self).spec_info() == old(self).spec_info(),
    {
        let headroom: i64 = MAX_PATH_PARAM - self.t_position;
        proof {
            assert(0 <= self.type_info.speed * delta_ms
                <= 1_000_000_000_000_000) by (nonlinear_arith)
                requires
                    0 <= self.type_info.speed <= MAX_SPEED,
                    0 <= delta_ms <= MAX_TICK_MS,
            ;
        }
        let raw: i64 = self.type_info.speed * delta_ms as i64;
        let budget: i64 = if raw <= headroom {
            raw
        } else {
            headroom
        };
        self.t_position = advance_along(trajectory, self.t_position, budget);
    }
}

/// The enemy after one tick of movement: the path position the walk
/// reaches; nothing else moves.
pub open spec fn spec_moved<T: Trajectory>(e: Enemy, trajectory: &T, delta_ms: int) -> Enemy {
    Enemy {
        t_position: spec_walk(
            trajectory,
            e.spec_t() as int,
            spec_move_budget(e, delta_ms),
            INITIAL_STEP as int,
        ) as i64,
        ..e
    }
}

/// The movement budget of one tick: distance at the kind's speed over the
/// elapsed time, clipped so the walk stays within the world.
pub open spec fn spec_move_budget(e: Enemy, delta_ms: int) -> int {
    let raw = e.spec_info().speed * delta_ms;
    if raw <= MAX_PATH_PARAM - e.spec_t() {
        raw
    } else {
        MAX_PATH_PARAM - e.spec_t()
    }
}

/// How much of a hit this enemy kind actually takes.
pub fn damage_eval(info: &EnemyInfo, damage: Damage) -> (d: i64)
    requires
        info.wf(),
        damage.wf(),
    ensures
        d == spec_damage_eval(*info, damage),
        0 <= d <= damage.value,
{
    proof {
        lemma_damage_eval_bounds(*info, damage);
    }
    let resisted = match info.resist_kind {
        Some(k) => k == damage.kind,
        None => false,
    };
    if resisted {
        ((damage.value as u64 * info.resist_permille as u64) / 1000) as i64
    } else {
        damage.value
    }
}

/// Arc-length fidelity on the straight road: one tick advances the path
/// position by exactly the distance asked for, speed times elapsed time.
pub proof fn lemma_line_advance_exact(e: Enemy, delta_ms: int)
    requires
        e.wf(),
        0 <= delta_ms <= MAX_TICK_MS,
        e.spec_t() + e.spec_info().speed * delta_ms <= MAX_PATH_PARAM,
    ensures
        spec_moved(e, &crate::trajectory::LineTrajectory {}, delta_ms).spec_t() == e.spec_t()
            + e.spec_info().speed * delta_ms,
{
    let s = e.spec_info().speed as int;
    let budget = s * delta_ms;
    assert(0 <= s * delta_ms) by (nonlinear_arith)
        requires
            0 <= s,
            0 <= delta_ms,
    ;
    assert(spec_move_budget(e, delta_ms) == budget);
    crate::movement::lemma_walk_line_exact(
        e.spec_t() as int,
        budget,
        INITIAL_STEP as int,
    );
}

/// Splitting one tick on the straight road into two consecutive ticks lands
/// the enemy at the same path position as the single combined tick.
pub proof fn lemma_line_advance_splits(e: Enemy, delta1_ms: int, delta2_ms: int)
    requires
        e.wf(),
        0 <= delta1_ms <= MAX_TICK_MS,
        0 <= delta2_ms <= MAX_TICK_MS,
        delta1_ms + delta2_ms <= MAX_TICK_MS,
        e.spec_t() + e.spec_info().speed * (delta1_ms + delta2_ms) <= MAX_PATH_PARAM,
    ensures
        spec_moved(
            spec_moved(e, &crate::trajectory::LineTrajectory {}, delta1_ms),
            &crate::trajectory::LineTrajectory {},
            delta2_ms,
        ) == spec_moved(e, &crate::trajectory::LineTrajectory {}, delta1_ms + delta2_ms),
{
    let line = crate::trajectory::LineTrajectory {};
    let s = e.spec_info().speed as int;
    assert(0 <= s * delta1_ms && 0 <= s * delta2_ms && s * delta1_ms + s * delta2_ms == s * (
    delta1_ms + delta2_ms)) by (nonlinear_arith)
        requires
            0 <= s,
            0 <= delta1_ms,
            0 <= delta2_ms,
    ;
    lemma_line_advance_exact(e, delta1_ms);
    let e1 = spec_moved(e, &line, delta1_ms);
    assert(e1.spec_info() == e.spec_info() && e1.spec_t() == e.spec_t() + s * delta1_ms);
    lemma_line_advance_exact(e1, delta2_ms);
    lemma_line_advance_exact(e, delta1_ms + delta2_ms);
}

/// The enemy after a whole sequence of hits, in order.
pub open spec fn spec_after_damages(e: Enemy, hits: Seq<Damage>) -> Enemy
    decreases hits.len(),
{
    if hits.len() == 0 {
        e
    } else {
        spec_after_damages(spec_take_damage(e, hits[0]), hits.drop_first())
    }
}

/// Damage monotonicity: over any sequence of hits an enemy's health never
/// rises, and once dead it stays dead.
pub proof fn lemma_damage_monotonic(e: Enemy, hits: Seq<Damage>)
    requires
        e.wf(),
        forall|i: int| 0 <= i < hits.len() ==> (#[trigger] hits[i]).wf(),
    ensures
        spec_after_damages(e, hits).spec_health() <= e.spec_health(),
        e.spec_is_dead() ==> spec_after_damages(e, hits).spec_is_dead(),
        spec_after_damages(e, hits).wf(),
    decreases hits.len(),
{
    if hits.len() == 0 {
    } else {
        lemma_damage_eval_bounds(e.spec_info(), hits[0]);
        let e1 = spec_take_damage(e, hits[0]);
        assert(forall|i: int|
            0 <= i < hits.drop_first().len() ==> (#[trigger] hits.drop_first()[i]).wf());
        lemma_damage_monotonic(e1, hits.drop_first());
    }
}

} // verus!
