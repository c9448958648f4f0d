//! The difficulty controller: per-run level and spawn-rate state, the gates
//! that decide whether an enemy may spawn next, and the bonus ratio that
//! scales the score of every defeated enemy.
//!
//! The bonus ratio is carried in tenths of a unit, so the steps of two
//! tenths the game takes are exact integers.

use vstd::prelude::*;
use crate::enemy::{MAX_TICK_MS, MIN_SPAWN_TIME_INTERVAL, SPAWN_TIME_INTERVAL};

verus! {

/// Saturating increment, used for the monotone counters of the stage.
pub open spec fn sat_inc(x: usize) -> usize {
    if x < usize::MAX {
        (x + 1) as usize
    } else {
        x
    }
}

/// Saturating decrement.
pub open spec fn sat_dec(x: usize) -> usize {
    if x > 0 {
        (x - 1) as usize
    } else {
        x
    }
}

/// A repeating countdown advanced by the elapsed milliseconds of each tick;
/// when the interval elapses it reports so and keeps the remainder.
#[derive(Clone, Copy, Debug, PartialEq, Eq, Structural)]
pub struct SpawnTimer {
    pub interval_ms: u64,
    pub elapsed_ms: u64,
}

impl SpawnTimer {
    pub open spec fn wf(self) -> bool {
        0 < self.interval_ms <= SPAWN_TIME_INTERVAL && self.elapsed_ms < self.interval_ms
    }

    pub fn new(interval_ms: u64) -> (t: SpawnTimer)
        requires
            0 < interval_ms <= SPAWN_TIME_INTERVAL,
        ensures
            t.wf(),
            t.interval_ms == interval_ms,
            t.elapsed_ms == 0,
    {
        SpawnTimer { interval_ms, elapsed_ms: 0 }
    }

    /// Advance by `delta_ms`; true exactly when the interval elapsed.
    pub fn tick(&mut self, delta_ms: u64) -> (fired: bool)
        requires
            old(self).wf(),
            delta_ms <= MAX_TICK_MS,
        ensures
            final(self).wf(),
            final(self).interval_ms == old(self).interval_ms,
            fired == (old(self).elapsed_ms + delta_ms >= old(self).interval_ms),
            final(self).elapsed_ms == (old(self).elapsed_ms + delta_ms) % (
            old(self).interval_ms as int),
    {
        let total = self.elapsed_ms + delta_ms;
        if total >= self.interval_ms {
            self.elapsed_ms = total % self.interval_ms;
            true
        } else {
            proof {
                vstd::arithmetic::div_mod::lemma_small_mod(
                    total as nat,
                    self.interval_ms as nat,
                );
            }
            self.elapsed_ms = total;
            false
        }
    }

    /// Restart the countdown from zero, keeping the interval.
    pub fn reset(&mut self)
        ensures
            final(self).interval_ms == old(self).interval_ms,
            final(self).elapsed_ms == 0,
    {
        self.elapsed_ms = 0;
    }
}

/// One step the game takes on the bonus ratio: a scored kill raises it by
/// two tenths, a miss lowers it by two tenths, floored at zero.
#[derive(Clone, Copy, Debug, PartialEq, Eq, Structural)]
pub enum BonusOp {
    Increase,
    Decrease,
}

/// The bonus ratio (in tenths) after one increase or decrease step.
pub open spec fn bonus_after(b: u32, op: BonusOp) -> u32 {
    match op {
        BonusOp::Increase => if b <= u32::MAX - 2 {
            (b + 2) as u32
        } else {
            u32::MAX
        },
        BonusOp::Decrease => if b >= 2 {
            (b - 2) as u32
        } else {
            0
        },
    }
}

/// The bonus ratio after a whole sequence of increase and decrease steps.
pub open spec fn bonus_after_ops(b: u32, ops: Seq<BonusOp>) -> u32
    decreases ops.len(),
{
    if ops.len() == 0 {
        b
    } else {
        bonus_after_ops(bonus_after(b, ops.first()), ops.drop_first())
    }
}

/// The bonus ratio is never negative after any sequence of increase and
/// decrease steps: every decrease is floored at zero.
pub proof fn lemma_bonus_never_negative(b: u32, ops: Seq<BonusOp>)
    ensures
        bonus_after_ops(b, ops) >= 0,
    decreases ops.len(),
{
    if ops.len() > 0 {
        lemma_bonus_never_negative(bonus_after(b, ops.first()), ops.drop_first());
    }
}

/// The per-run state of the difficulty controller.  `enemies_to_defeat` is
/// the quota of the current level; `enemies_alive` and `enemies_defeated`
/// gate the spawner; the long-word counters gate generator enemies.
#[derive(Clone, Copy, Debug, PartialEq, Eq, Structural)]
pub struct StageComponent {
    pub level: u16,
    pub enemies_to_defeat: usize,
    pub enemies_defeated: usize,
    pub long_enemies_alive: usize,
    pub long_enemies_defeated: usize,
    pub enemies_alive: usize,
    pub spawn_timer: SpawnTimer,
    pub bonus_ratio: u32,
}

impl StageComponent {
    pub open spec fn wf(self) -> bool {
        self.spawn_timer.wf()
    }

    /// An enemy may spawn while the level's quota is not yet covered by
    /// enemies alive or already defeated.
    pub open spec fn spec_can_spawn(self) -> bool {
        self.enemies_alive + self.enemies_defeated < self.enemies_to_defeat
    }

    /// A long-word (generator) enemy may spawn while, in addition, fewer
    /// than a third of the level number of them have been seen this level.
    pub open spec fn spec_can_spawn_long(self) -> bool {
        self.spec_can_spawn() && self.long_enemies_alive + self.long_enemies_defeated
            < self.level as int / 3
    }

    /// The state after registering a birth.
    pub open spec fn spec_born(self, long_enemy: bool) -> StageComponent {
        StageComponent {
            enemies_alive: sat_inc(self.enemies_alive),
            long_enemies_alive: if long_enemy {
                sat_inc(self.long_enemies_alive)
            } else {
                self.long_enemies_alive
            },
            ..self
        }
    }

    /// The state after registering a defeat: the enemy is no longer alive,
    /// and only defeats that count toward the level raise the quota counter
    /// (children born of a generator do not).
    pub open spec fn spec_defeated(self, counts_toward_level: bool) -> StageComponent {
        StageComponent {
            enemies_alive: sat_dec(self.enemies_alive),
            enemies_defeated: if counts_toward_level {
                sat_inc(self.enemies_defeated)
            } else {
                self.enemies_defeated
            },
            ..self
        }
    }

    /// The initial stage of a run: level one, two enemies to defeat, the
    /// spawn timer at its starting interval, everything else at zero.
    pub open spec fn spec_initial() -> StageComponent {
        StageComponent {
            level: 1,
            enemies_to_defeat: 2,
            enemies_defeated: 0,
            long_enemies_alive: 0,
            long_enemies_defeated: 0,
            enemies_alive: 0,
            spawn_timer: SpawnTimer { interval_ms: SPAWN_TIME_INTERVAL, elapsed_ms: 0 },
            bonus_ratio: 0,
        }
    }

    /// See `spec_initial`.
    pub fn new() -> (st: StageComponent)
        ensures
            st.wf(),
            st == StageComponent::spec_initial(),
            st.level == 1,
            st.enemies_to_defeat == 2,
            st.enemies_defeated == 0,
            st.long_enemies_alive == 0,
            st.long_enemies_defeated == 0,
            st.enemies_alive == 0,
            st.bonus_ratio == 0,
            st.spawn_timer.interval_ms == SPAWN_TIME_INTERVAL,
            st.spawn_timer.elapsed_ms == 0,
    {
        StageComponent {
            level: 1,
            enemies_to_defeat: 2,
            enemies_defeated: 0,
            long_enemies_alive: 0,
            long_enemies_defeated: 0,
            enemies_alive: 0,
            spawn_timer: SpawnTimer::new(SPAWN_TIME_INTERVAL),
            bonus_ratio: 0,
        }
    }

    pub fn can_spawn_enemy(&self) -> (r: bool)
        ensures
            r == self.spec_can_spawn(),
    {
        self.enemies_alive < self.enemies_to_defeat && self.enemies_defeated
            < self.enemies_to_defeat - self.enemies_alive
    }

    pub fn can_spawn_long_enemy(&self) -> (r: bool)
        ensures
            r == self.spec_can_spawn_long(),
    {
        let third = (self.level / 3) as usize;
        self.can_spawn_enemy() && self.long_enemies_alive < third && self.long_enemies_defeated
            < third - self.long_enemies_alive
    }

    pub fn enemy_born(&mut self, long_enemy: bool)
        ensures
            *final(self) == old(self).spec_born(long_enemy),
    {
        self.enemies_alive = if self.enemies_alive < usize::MAX {
            self.enemies_alive + 1
        } else {
            self.enemies_alive
        };
        if long_enemy {
            self.long_enemies_alive = if self.long_enemies_alive < usize::MAX {
                self.long_enemies_alive + 1
            } else {
                self.long_enemies_alive
            };
        }
    }

    pub fn enemy_defeated(&mut self, counts_toward_level: bool)
        ensures
            *final(self) == old(self).spec_defeated(counts_toward_level),
    {
        self.enemies_alive = if self.enemies_alive > 0 {
            self.enemies_alive - 1
        } else {
            self.enemies_alive
        };
        if counts_toward_level {
            self.enemies_defeated = if self.enemies_defeated < usize::MAX {
                self.enemies_defeated + 1
            } else {
                self.enemies_defeated
            };
        }
    }

    /// Raise the bonus ratio by two tenths (unbounded by the rules of the
    /// game; saturating only at the machine limit).
    pub fn increase_bonus(&mut self)
        ensures
            *final(self) == (StageComponent {
                bonus_ratio: bonus_after(old(self).bonus_ratio, BonusOp::Increase),
                ..*old(self)
            }),
    {
        self.bonus_ratio = if self.bonus_ratio <= u32::MAX - 2 {
            self.bonus_ratio + 2
        } else {
            u32::MAX
        };
    }

    /// Lower the bonus ratio by two tenths, floored at zero.
    pub fn decrease_bonus(&mut self)
        ensures
            *final(self) == (StageComponent {
                bonus_ratio: bonus_after(old(self).bonus_ratio, BonusOp::Decrease),
                ..*old(self)
            }),
    {
        self.bonus_ratio = if self.bonus_ratio >= 2 {
            self.bonus_ratio - 2
        } else {
            0
        };
    }

    /// The stage after a miss: the bonus ratio falls one step.
    pub open spec fn spec_missed(self) -> StageComponent {
        StageComponent { bonus_ratio: bonus_after(self.bonus_ratio, BonusOp::Decrease), ..self }
    }

    /// The stage after a scored kill: the bonus ratio rises one step and
    /// the defeat is registered (counting toward the level quota only when
    /// the enemy was not a generator's child).
    pub open spec fn spec_scored(self, generated: bool) -> StageComponent {
        (StageComponent {
            bonus_ratio: bonus_after(self.bonus_ratio, BonusOp::Increase),
            ..self
        }).spec_defeated(!generated)
    }

    /// The current bonus ratio, in tenths of a unit.
    pub fn bonus(&self) -> (r: u32)
        ensures
            r == self.bonus_ratio,
    {
        self.bonus_ratio
    }

    /// Begin a level afresh: all counts and the bonus return to zero and the
    /// spawn timer restarts; the level and its quota stay.
    pub fn reset(&mut self)
        ensures
            *final(self) == (StageComponent {
                enemies_defeated: 0,
                long_enemies_alive: 0,
                long_enemies_defeated: 0,
                enemies_alive: 0,
                bonus_ratio: 0,
                spawn_timer: SpawnTimer {
                    interval_ms: old(self).spawn_timer.interval_ms,
                    elapsed_ms: 0,
                },
                ..*old(self)
            }),
    {
        self.enemies_defeated = 0;
        self.long_enemies_alive = 0;
        self.long_enemies_defeated = 0;
        self.enemies_alive = 0;
        self.bonus_ratio = 0;
        self.spawn_timer.reset();
    }

    /// The spawn interval of the next level: fifteen percent shorter,
    /// floored at the minimum interval.
    pub open spec fn spec_next_interval(interval: u64) -> u64 {
        if interval * 85 / 100 < MIN_SPAWN_TIME_INTERVAL {
            MIN_SPAWN_TIME_INTERVAL
        } else {
            (interval * 85 / 100) as u64
        }
    }

    /// The stage after level completion (`reset` followed by `next_level`):
    /// counters and bonus return to zero, the level number rises by one,
    /// the spawn interval shrinks (floored at the minimum) and restarts,
    /// and the quota of enemies to defeat becomes the new level number.
    pub open spec fn spec_leveled(self) -> StageComponent {
        let lvl = if self.level < u16::MAX {
            (self.level + 1) as u16
        } else {
            self.level
        };
        StageComponent {
            level: lvl,
            enemies_to_defeat: lvl as usize,
            enemies_defeated: 0,
            long_enemies_alive: 0,
            long_enemies_defeated: 0,
            enemies_alive: 0,
            spawn_timer: SpawnTimer {
                interval_ms: StageComponent::spec_next_interval(self.spawn_timer.interval_ms),
                elapsed_ms: 0,
            },
            bonus_ratio: 0,
        }
    }

    /// Move to the next level: the level number rises by one, the spawn
    /// interval shrinks by fifteen percent (floored at the minimum) and
    /// restarts, and the quota of enemies to defeat becomes the new level
    /// number.
    pub fn next_level(&mut self)
        requires
            old(self).wf(),
        ensures
            final(self).wf(),
            final(self).level == if old(self).level < u16::MAX {
                old(self).level + 1
            } else {
                old(self).level as int
            },
            final(self).enemies_to_defeat == final(self).level,
            final(self).spawn_timer.interval_ms == StageComponent::spec_next_interval(
                old(self).spawn_timer.interval_ms,
            ),
            final(self).spawn_timer.elapsed_ms == 0,
            final(self).enemies_defeated == old(self).enemies_defeated,
            final(self).enemies_alive == old(self).enemies_alive,
            final(self).long_enemies_alive == old(self).long_enemies_alive,
            final(self).long_enemies_defeated == old(self).long_enemies_defeated,
            final(self).bonus_ratio == old(self).bonus_ratio,
    {
        self.level = if self.level < u16::MAX {
            self.level + 1
        } else {
            self.level
        };
        let shrunk = self.spawn_timer.interval_ms * 85 / 100;
        let interval = if shrunk < MIN_SPAWN_TIME_INTERVAL {
            MIN_SPAWN_TIME_INTERVAL
        } else {
            shrunk
        };
        self.spawn_timer = SpawnTimer::new(interval);
        self.enemies_to_defeat = self.level as usize;
    }
}

/// A spawn decision keeps `enemies_alive + enemies_defeated` within the
/// level's quota: an enemy is born only while room remains, and a birth
/// raises the count by exactly one.
pub proof fn lemma_spawn_gate_preserved(st: StageComponent, long_enemy: bool)
    requires
        st.spec_can_spawn(),
    ensures
        st.spec_born(long_enemy).enemies_alive + st.spec_born(long_enemy).enemies_defeated
            <= st.spec_born(long_enemy).enemies_to_defeat,
{
}

} // verus!
