//! The player's ledger: the score accumulator and the miss and combo
//! counters, with the rules that govern them.

use vstd::prelude::*;

verus! {

/// Saturating increment for the ledger's monotone counters.
pub open spec fn sat_inc64(x: u64) -> u64 {
    if x < u64::MAX {
        (x + 1) as u64
    } else {
        x
    }
}

/// The run's score: a monotonically increasing accumulator, credited only
/// when an enemy's word is exhausted.
#[derive(Clone, Copy, Debug, PartialEq, Eq, Structural)]
pub struct PlayerScore(pub u64);

impl PlayerScore {
    /// Add `points` to the score, saturating only at the machine limit.
    pub fn add(&mut self, points: u64)
        ensures
            final(self).0 == if old(self).0 + points <= u64::MAX {
                old(self).0 + points
            } else {
                u64::MAX as int
            },
    {
        self.0 = if self.0 <= u64::MAX - points {
            self.0 + points
        } else {
            u64::MAX
        };
    }
}

/// The player's streak state: `misses` only ever grows; `combos_count`
/// grows by one per scored kill and returns to zero on any miss.
#[derive(Clone, Copy, Debug, PartialEq, Eq, Structural)]
pub struct PlayerStats {
    pub misses: u64,
    pub combos_count: u64,
}

impl PlayerStats {
    /// The stats after a miss: the combo streak is broken, the miss counter
    /// rises by one.
    pub open spec fn spec_missed(self) -> PlayerStats {
        PlayerStats { misses: sat_inc64(self.misses), combos_count: 0 }
    }

    /// The stats after a scored kill: the combo streak grows by one.
    pub open spec fn spec_scored(self) -> PlayerStats {
        PlayerStats { misses: self.misses, combos_count: sat_inc64(self.combos_count) }
    }

    pub fn new() -> (st: PlayerStats)
        ensures
            st.misses == 0,
            st.combos_count == 0,
    {
        PlayerStats { misses: 0, combos_count: 0 }
    }

    /// Register a miss.
    pub fn register_miss(&mut self)
        ensures
            *final(self) == old(self).spec_missed(),
    {
        self.combos_count = 0;
        self.misses = if self.misses < u64::MAX {
            self.misses + 1
        } else {
            self.misses
        };
    }

    /// Register a scored kill.
    pub fn register_kill(&mut self)
        ensures
            *final(self) == old(self).spec_scored(),
    {
        self.combos_count = if self.combos_count < u64::MAX {
            self.combos_count + 1
        } else {
            self.combos_count
        };
    }
}

/// What a defeated enemy is worth: its reward value scaled by one plus the
/// bonus ratio, floored to an integer.  With the bonus ratio in tenths this
/// is exactly `reward * (10 + bonus) / 10`, rounded down.
pub open spec fn spec_credit(points: u32, bonus_tenths: u32) -> u64 {
    (points * (10 + bonus_tenths) / 10) as u64
}

/// Compute the score credit for a defeated enemy.
pub fn credit(points: u32, bonus_tenths: u32) -> (r: u64)
    ensures
        r == spec_credit(points, bonus_tenths),
{
    let p: u128 = points as u128;
    let b: u128 = bonus_tenths as u128;
    assert(p * (10 + b) <= 0xffff_ffffu128 * (10 + 0xffff_ffffu128)) by (nonlinear_arith)
        requires
            p <= 0xffff_ffffu128,
            b <= 0xffff_ffffu128,
    ;
    let wide: u128 = p * (10 + b);
    (wide / 10) as u64
}

/// The combo streak resets to exactly zero immediately after any miss, and
/// grows by exactly one per scored kill (up to the machine limit, which no
/// run reaches).
pub proof fn lemma_combo_discipline(st: PlayerStats)
    ensures
        st.spec_missed().combos_count == 0,
        st.combos_count < u64::MAX ==> st.spec_scored().combos_count == st.combos_count + 1,
        st.spec_missed().misses >= st.misses,
        st.spec_scored().misses == st.misses,
{
}

} // verus!
