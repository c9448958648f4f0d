//! The input resolver: one keystroke per tick drives a two-state machine.
//! With no target locked, the keystroke tries to acquire the enemy nearest
//! the defeat line whose word starts with the pressed character; with a
//! target locked, it is matched against the target's leading character.
//! An accepted character is consumed from the word and throws a fish; a
//! mismatch decays the target's reward and counts as a miss; exhausting
//! the word unlocks the target, halts it, and scores it at once.

use vstd::prelude::*;
use crate::enemy::{find_enemy, give_point_when_dead, Enemy, EnemyState};
use crate::penguins::{FishThrowed, PENGUIN_THROW_ORIGIN_Y};
use crate::player::spec_credit;
use crate::sim::Simulation;

verus! {

/// What one keystroke did.
#[derive(Clone, Copy, Debug, PartialEq, Eq, Structural)]
pub enum KeyOutcome {
    /// No target was locked and no enemy's word starts with the key.
    FreeMiss,
    /// The key matched the target's leading character; more remain.
    Hit,
    /// The key matched the target's last remaining character.
    WordComplete,
    /// A target was locked and the key did not match.
    Mismatch,
}

/// Whether the enemy at index `i` could be acquired by this key: it still
/// bears an unconsumed word whose leading character is the key.
pub open spec fn is_candidate(es: Seq<Enemy>, key: char, i: int) -> bool {
    0 <= i < es.len() && es[i].word@.len() > 0 && es[i].word@[0] == key
}

/// Whether index `i` is the candidate the resolver acquires: the candidate
/// nearest the defeat line (lowest on screen), earliest in the population
/// on ties.
pub open spec fn is_acquired_target(es: Seq<Enemy>, key: char, i: int) -> bool {
    is_candidate(es, key, i) && forall|j: int|
        #[trigger] is_candidate(es, key, j) ==> es[i].y < es[j].y || (es[i].y == es[j].y && i
            <= j)
}

/// The index the keystroke resolves against: the locked enemy's index if a
/// lock is held, else the acquired candidate's.
pub open spec fn spec_target(s: Simulation, key: char, i: int) -> bool {
    match s.locked {
        Some(id) => 0 <= i < s.enemies@.len() && s.enemies@[i].id == id,
        None => is_acquired_target(s.enemies@, key, i),
    }
}

/// The fish thrown at an enemy: it starts at the throw origin and captures
/// the enemy's current position.
pub open spec fn thrown_at(e: Enemy) -> FishThrowed {
    FishThrowed { target: e.id, target_x: e.x, target_y: e.y, x: 0, y: PENGUIN_THROW_ORIGIN_Y }
}

/// A mistyped keystroke costs the enemy a tenth of its reward, rounded
/// down.
pub open spec fn decayed_points(p: u32) -> u32 {
    (p * 9 / 10) as u32
}

/// What resolving key `key` against the target at index `i` of `s0` did,
/// when the outcome is `out` and the new state is `s1`.
pub open spec fn spec_resolved(
    s0: Simulation,
    s1: Simulation,
    key: char,
    i: int,
    out: KeyOutcome,
) -> bool {
    let e = s0.enemies@[i];
    if e.word@[0] == key {
        // the key is accepted: the leading character is consumed and a
        // fish is thrown at the enemy's current position
        &&& s1.projectiles@ == s0.projectiles@.push(thrown_at(e))
        &&& s1.enemies@.len() == s0.enemies@.len()
        &&& (forall|j: int|
            0 <= j < s0.enemies@.len() && j != i ==> s1.enemies@[j] == s0.enemies@[j])
        &&& s1.enemies@[i].word@ == e.word@.drop_first()
        &&& s1.enemies@[i].id == e.id
        &&& s1.enemies@[i].life == e.life
        &&& s1.enemies@[i].velocity == e.velocity
        &&& s1.enemies@[i].points == e.points
        &&& s1.enemies@[i].x == e.x
        &&& s1.enemies@[i].y == e.y
        &&& s1.enemies@[i].genitor == e.genitor
        &&& s1.enemies@[i].generated == e.generated
        &&& if e.word@.len() == 1 {
            // the word is exhausted: unlock, halt, and score at once
            &&& out == KeyOutcome::WordComplete
            &&& s1.enemies@[i].state == EnemyState::Idle
            &&& s1.locked is None
            &&& s1.score.0 == if s0.score.0 + spec_credit(e.points, s0.stage.bonus_ratio)
                <= u64::MAX {
                s0.score.0 + spec_credit(e.points, s0.stage.bonus_ratio)
            } else {
                u64::MAX as int
            }
            &&& s1.stats == s0.stats.spec_scored()
            &&& s1.stage == s0.stage.spec_scored(e.generated)
        } else {
            &&& out == KeyOutcome::Hit
            &&& s1.enemies@[i].state == e.state
            &&& s1.locked == Some(e.id)
            &&& s1.score == s0.score
            &&& s1.stats == s0.stats
            &&& s1.stage == s0.stage
        }
    } else {
        // a mismatch against the locked target: reward decays, miss
        &&& out == KeyOutcome::Mismatch
        &&& s1.enemies@ == s0.enemies@.update(
            i,
            (Enemy { points: decayed_points(e.points), ..e }),
        )
        &&& s1.projectiles@ == s0.projectiles@
        &&& s1.locked == s0.locked
        &&& s1.score == s0.score
        &&& s1.stats == s0.stats.spec_missed()
        &&& s1.stage == s0.stage.spec_missed()
    }
}

/// The whole effect of one keystroke, relating the simulation before and
/// after it.  The keystroke is a free miss exactly when no lock is held
/// and no enemy's word starts with the key; otherwise it resolves against
/// the unique target index, as `spec_resolved` describes.
pub open spec fn key_step(s0: Simulation, s1: Simulation, key: char, out: KeyOutcome) -> bool {
    &&& s1.mode == s0.mode
    &&& s1.words == s0.words
    &&& s1.next_id == s0.next_id
    &&& s1.elapsed_ms == s0.elapsed_ms
    &&& s1.pending_keys == s0.pending_keys
    &&& ((out == KeyOutcome::FreeMiss) <==> (s0.locked is None && forall|j: int|
        !is_candidate(s0.enemies@, key, j)))
    &&& (out == KeyOutcome::FreeMiss ==> {
        &&& s1.enemies@ == s0.enemies@
        &&& s1.projectiles@ == s0.projectiles@
        &&& s1.locked is None
        &&& s1.score == s0.score
        &&& s1.stats == s0.stats.spec_missed()
        &&& s1.stage == s0.stage.spec_missed()
    })
    &&& (out != KeyOutcome::FreeMiss ==> exists|i: int| spec_target(s0, key, i))
    &&& (forall|i: int| #[trigger] spec_target(s0, key, i) ==> spec_resolved(s0, s1, key, i, out))
}

/// Find the enemy a keystroke with no lock held would acquire: the enemy
/// with an unconsumed word starting with `key` that is nearest the defeat
/// line, earliest in the population on ties.
fn acquire_target(enemies: &Vec<Enemy>, key: char) -> (r: Option<usize>)
    ensures
        match r {
            Some(i) => i < enemies@.len() && is_acquired_target(enemies@, key, i as int),
            None => forall|j: int| !is_candidate(enemies@, key, j),
        },
{
    let n = enemies.len();
    let mut best: Option<usize> = None;
    let mut i: usize = 0;
    while i < n
        invariant
            i <= n,
            n == enemies@.len(),
            match best {
                Some(b) => b < i && is_candidate(enemies@, key, b as int) && forall|j: int|
                    0 <= j < i && #[trigger] is_candidate(enemies@, key, j) ==> (
                    enemies@[b as int].y < enemies@[j].y || (enemies@[b as int].y
                        == enemies@[j].y && b <= j)),
                None => forall|j: int| 0 <= j < i ==> !is_candidate(enemies@, key, j),
            },
        decreases n - i,
    {
        let e = &enemies[i];
        if e.word.len() > 0 && e.word[0] == key {
            match best {
                Some(b) => {
                    if enemies[i].y < enemies[b].y {
                        best = Some(i);
                    }
                },
                None => {
                    best = Some(i);
                },
            }
        }
        i += 1;
    }
    best
}

/// Resolve one keystroke.  With no lock held it first tries to acquire a
/// target (the lowest enemy whose word starts with the key; failing that,
/// the keystroke is a free miss: bonus down, combo broken, miss counted).
/// The acquiring keystroke itself is then matched, so it also consumes the
/// word's leading character and throws a fish, exactly as a keystroke
/// against an already locked target does.
pub fn key_pressed(sim: &mut Simulation, key: char) -> (out: KeyOutcome)
    requires
        old(sim).wf(),
    ensures
        final(sim).wf(),
        key_step(*old(sim), *final(sim), key, out),
{
    let ghost s0 = *old(sim);
    let i: usize = match sim.locked {
        Some(id) => {
            match find_enemy(&sim.enemies, id) {
                Some(k) => k,
                None => {
                    // a held lock always names a living enemy, so the
                    // lookup cannot fail
                    proof {
                        assert(false);
                    }
                    0
                },
            }
        },
        None => {
            match acquire_target(&sim.enemies, key) {
                Some(k) => {
                    let eid = sim.enemies[k].id;
                    sim.locked = Some(eid);
                    k
                },
                None => {
                    sim.stage.decrease_bonus();
                    sim.stats.register_miss();
                    return KeyOutcome::FreeMiss;
                },
            }
        },
    };
    proof {
        assert(spec_target(s0, key, i as int));
        assert forall|i2: int| spec_target(s0, key, i2) implies i2 == i as int by {
            match s0.locked {
                Some(id) => {},
                None => {
                    assert(is_candidate(s0.enemies@, key, i as int));
                    assert(is_candidate(s0.enemies@, key, i2));
                },
            }
        }
    }
    let c = sim.enemies[i].word[0];
    if c == key {
        let e = &mut sim.enemies[i];
        let _consumed = e.word.remove(0);
        let eid = e.id;
        let ex = e.x;
        let ey = e.y;
        let epoints = e.points;
        let egen = e.generated;
        let now_empty = e.word.len() == 0;
        if now_empty {
            e.state = EnemyState::Idle;
        }
        proof {
            assert(e.word@ =~= s0.enemies@[i as int].word@.drop_first());
        }
        sim.projectiles.push(
            FishThrowed { target: eid, target_x: ex, target_y: ey, x: 0, y: PENGUIN_THROW_ORIGIN_Y },
        );
        if now_empty {
            sim.locked = None;
            give_point_when_dead(&mut sim.stage, &mut sim.score, &mut sim.stats, epoints, egen);
            KeyOutcome::WordComplete
        } else {
            KeyOutcome::Hit
        }
    } else {
        let e = &mut sim.enemies[i];
        let wide: u64 = (e.points as u64) * 9;
        let np = (wide / 10) as u32;
        assert(np <= e.points) by (nonlinear_arith)
            requires
                np == wide / 10,
                wide == (e.points as u64) * 9,
                e.points <= u32::MAX,
        ;
        e.points = np;
        proof {
            assert(sim.enemies@ =~= s0.enemies@.update(
                i as int,
                (Enemy { points: decayed_points(s0.enemies@[i as int].points), ..s0.enemies@[i
                    as int] }),
            ));
        }
        sim.stage.decrease_bonus();
        sim.stats.register_miss();
        KeyOutcome::Mismatch
    }
}

} // verus!
