//! The simulation context: all the state of one run, its well-formedness,
//! and the tick loop that drives the fixed phase order of the game.

use vstd::prelude::*;
use crate::defeat_zone::{gameover, in_defeat_band};
use crate::enemy::{
    all_enemies_ok, despawn_enemies, despawn_step, enemy_walk, from_population, generate_enemy,
    ids_unique, reproduce_step, spawn_entity, spawn_step, walked_all, Blood, Enemy, EnemyState,
    MAX_TICK_MS,
};
use crate::input::{key_pressed, key_step, spec_target, KeyOutcome};
use crate::penguins::{
    all_fish_ok, collision_step, count_targeting, fish_and_enemy_collision,
    lemma_count_targeting_none, lemma_count_targeting_push, lemma_fish_accounting,
    lemma_kept_fish_targets, FishThrowed,
};
use crate::player::{PlayerScore, PlayerStats};
use crate::stage::StageComponent;
use crate::words::WordsResource;

verus! {

/// The mode the game is in.  Reaching `GameOver` is terminal for the run:
/// gameplay phases no longer execute.
#[derive(Clone, Copy, Debug, PartialEq, Eq, Hash, Structural)]
pub enum GameState {
    MainMenu,
    Gameplay,
    GameOver,
}

/// The whole state of one run, passed explicitly to every tick.
#[verifier::ext_equal]
pub struct Simulation {
    pub mode: GameState,
    pub stage: StageComponent,
    pub score: PlayerScore,
    pub stats: PlayerStats,
    pub words: WordsResource,
    pub enemies: Vec<Enemy>,
    pub projectiles: Vec<FishThrowed>,
    /// The id of the enemy the player's input is locked on, if any; at most
    /// one enemy is ever locked.
    pub locked: Option<u64>,
    /// The id the next spawned enemy will bear; every living enemy's id is
    /// below it.
    pub next_id: u64,
    /// Total simulated time, in milliseconds.
    pub elapsed_ms: u64,
    /// Keystrokes not yet consumed, oldest first; one is consumed per tick.
    pub pending_keys: Vec<char>,
}

/// The simulation with its clock advanced by one tick's elapsed time
/// (saturating only at the machine limit).
pub open spec fn with_elapsed(s: Simulation, delta_ms: u64) -> Simulation {
    Simulation {
        elapsed_ms: if s.elapsed_ms + delta_ms <= u64::MAX {
            (s.elapsed_ms + delta_ms) as u64
        } else {
            u64::MAX
        },
        ..s
    }
}

/// The whole effect of the population phase of one tick: one gated spawn
/// decision, then one step of movement, then one reproduction pass, with
/// every other part of the state untouched.
pub open spec fn population_step(pre: Simulation, post: Simulation, delta_ms: u64) -> bool {
    &&& post.mode == pre.mode
    &&& post.score == pre.score
    &&& post.stats == pre.stats
    &&& post.words == pre.words
    &&& post.locked == pre.locked
    &&& post.elapsed_ms == pre.elapsed_ms
    &&& post.pending_keys == pre.pending_keys
    &&& post.projectiles == pre.projectiles
    &&& exists|ea: Seq<Enemy>, sta: StageComponent, ida: u64|
        #![trigger spawn_step(
            pre.stage,
            pre.enemies@,
            pre.next_id,
            sta,
            ea,
            ida,
            pre.words,
            pre.elapsed_ms,
            delta_ms,
        )]
        {
            &&& spawn_step(
                pre.stage,
                pre.enemies@,
                pre.next_id,
                sta,
                ea,
                ida,
                pre.words,
                pre.elapsed_ms,
                delta_ms,
            )
            &&& reproduce_step(
                sta,
                walked_all(ea, delta_ms),
                ida,
                post.stage,
                post.enemies@,
                post.next_id,
                pre.words,
                pre.elapsed_ms,
            )
        }
}

/// A simulation equal to `pre` but with the oldest pending keystroke taken
/// off the queue.
pub open spec fn popped_key(pre: Simulation, sp: Simulation) -> bool {
    &&& sp.pending_keys@ == pre.pending_keys@.drop_first()
    &&& sp == (Simulation { pending_keys: sp.pending_keys, ..pre })
}

/// The keystroke phase of one tick: the oldest pending key, if any, is
/// taken off the queue and resolved; with none pending nothing happens.
pub open spec fn key_phase(
    pre: Simulation,
    post: Simulation,
    outcome: Option<crate::input::KeyOutcome>,
) -> bool {
    match outcome {
        None => pre.pending_keys@.len() == 0 && post == pre,
        Some(o) => pre.pending_keys@.len() > 0 && exists|sp: Simulation|
            #![trigger key_step(sp, post, pre.pending_keys@[0], o)]
            popped_key(pre, sp) && key_step(sp, post, pre.pending_keys@[0], o),
    }
}

/// The whole effect of the combat phase of one tick: the keystroke phase,
/// then the projectile phase, then the removal phase; the stage, score and
/// stats move only within the keystroke phase.
pub open spec fn combat_step(
    pre: Simulation,
    post: Simulation,
    delta_ms: u64,
    outcome: Option<crate::input::KeyOutcome>,
    blood: Seq<Blood>,
) -> bool {
    exists|sk: Simulation, esb: Seq<Enemy>|
        #![trigger key_phase(pre, sk, outcome), collision_step(
            sk.enemies@,
            sk.projectiles@,
            esb,
            post.projectiles@,
            delta_ms,
        )]
        {
            &&& key_phase(pre, sk, outcome)
            &&& collision_step(sk.enemies@, sk.projectiles@, esb, post.projectiles@, delta_ms)
            &&& despawn_step(esb, sk.locked, post.enemies@, post.locked, blood)
            &&& post.mode == sk.mode
            &&& post.stage == sk.stage
            &&& post.score == sk.score
            &&& post.stats == sk.stats
            &&& post.words == sk.words
            &&& post.next_id == sk.next_id
            &&& post.elapsed_ms == sk.elapsed_ms
            &&& post.pending_keys == sk.pending_keys
        }
}

/// The closing decisions of one tick: the run ends exactly when some enemy
/// stands in the defeat band; otherwise the level completes exactly when
/// the quota is met with no enemy left alive, resetting the stage into the
/// next level.  In every other case the stage — and everything else — is
/// untouched by this phase.
pub open spec fn conclude_step(mid: Simulation, post: Simulation, leveled_up: bool) -> bool {
    let over = exists|i: int|
        0 <= i < mid.enemies@.len() && in_defeat_band(#[trigger] mid.enemies@[i]);
    &&& post.mode == (if over {
        GameState::GameOver
    } else {
        mid.mode
    })
    &&& leveled_up == (!over && mid.stage.enemies_defeated >= mid.stage.enemies_to_defeat
        && mid.stage.enemies_alive == 0)
    &&& post.stage == (if leveled_up {
        mid.stage.spec_leveled()
    } else {
        mid.stage
    })
    &&& post == (Simulation { mode: post.mode, stage: post.stage, ..mid })
}

/// One whole tick in Gameplay: the clock advances, the population phase
/// runs, the combat phase runs, and the closing decisions apply.
pub open spec fn tick_rel(
    pre: Simulation,
    post: Simulation,
    delta_ms: u64,
    outcome: Option<crate::input::KeyOutcome>,
    blood: Seq<Blood>,
    leveled_up: bool,
) -> bool {
    exists|s1: Simulation, s2: Simulation|
        #![trigger population_step(with_elapsed(pre, delta_ms), s1, delta_ms), combat_step(
            s1,
            s2,
            delta_ms,
            outcome,
            blood,
        )]
        {
            &&& population_step(with_elapsed(pre, delta_ms), s1, delta_ms)
            &&& combat_step(s1, s2, delta_ms, outcome, blood)
            &&& conclude_step(s2, post, leveled_up)
        }
}

/// Every fish in flight is aimed at an id the spawner has already handed
/// out.
pub open spec fn fish_targets_below(ps: Seq<FishThrowed>, bound: u64) -> bool {
    forall|k: int| 0 <= k < ps.len() ==> (#[trigger] ps[k]).target < bound
}

/// The life accounting of a run: every enemy's life is exactly its
/// remaining word length plus the number of fish still flying at it.  An
/// enemy's life therefore reaches zero only once its word is exhausted and
/// its last fish has landed.
pub open spec fn life_accounted(es: Seq<Enemy>, ps: Seq<FishThrowed>) -> bool {
    forall|i: int|
        0 <= i < es.len() ==> (#[trigger] es[i]).life == es[i].word@.len() + count_targeting(
            ps,
            es[i].id,
        )
}

/// A lock always points at a walking enemy of the population.
pub open spec fn locked_ok_of(locked: Option<u64>, es: Seq<Enemy>) -> bool {
    match locked {
        Some(id) => exists|i: int|
            0 <= i < es.len() && (#[trigger] es[i]).id == id && es[i].state == EnemyState::Walk,
        None => true,
    }
}

/// A phase that keeps every enemy's id and state in place (it may append
/// new enemies or change other fields) keeps the lock pointing at a
/// walking enemy.
pub proof fn lemma_locked_preserved(locked: Option<u64>, pre: Seq<Enemy>, post: Seq<Enemy>)
    requires
        locked_ok_of(locked, pre),
        post.len() >= pre.len(),
        forall|i: int|
            0 <= i < pre.len() ==> (#[trigger] post[i]).id == pre[i].id && post[i].state
                == pre[i].state,
    ensures
        locked_ok_of(locked, post),
{
    match locked {
        Some(id) => {
            let i = choose|i: int|
                0 <= i < pre.len() && (#[trigger] pre[i]).id == id && pre[i].state
                    == EnemyState::Walk;
            assert(post[i].id == id && post[i].state == EnemyState::Walk);
        },
        None => {},
    }
}

impl Simulation {
    /// See `locked_ok_of`.
    pub open spec fn locked_ok(self) -> bool {
        locked_ok_of(self.locked, self.enemies@)
    }

    /// See `life_accounted`; a fresh run is accounted, and `tick` keeps it
    /// so.
    pub open spec fn accounted(self) -> bool {
        &&& life_accounted(self.enemies@, self.projectiles@)
        &&& fish_targets_below(self.projectiles@, self.next_id)
    }

    pub open spec fn wf(self) -> bool {
        &&& self.stage.wf()
        &&& self.words.wf()
        &&& all_enemies_ok(self.enemies@)
        &&& ids_unique(self.enemies@)
        &&& (forall|i: int|
            0 <= i < self.enemies@.len() ==> (#[trigger] self.enemies@[i]).id < self.next_id)
        &&& all_fish_ok(self.projectiles@)
        &&& self.locked_ok()
    }

    /// A fresh run, at the main menu, with the fixed word bank.
    pub fn new() -> (s: Simulation)
        ensures
            s.wf(),
            s.accounted(),
            s.mode == GameState::MainMenu,
            s.stage == StageComponent::spec_initial(),
            s.score.0 == 0,
            s.stats.misses == 0 && s.stats.combos_count == 0,
            s.enemies@.len() == 0,
            s.projectiles@.len() == 0,
            s.locked is None,
            s.next_id == 0,
            s.elapsed_ms == 0,
            s.pending_keys@.len() == 0,
    {
        Simulation {
            mode: GameState::MainMenu,
            stage: StageComponent::new(),
            score: PlayerScore(0),
            stats: PlayerStats::new(),
            words: WordsResource::from_file(),
            enemies: Vec::new(),
            projectiles: Vec::new(),
            locked: None,
            next_id: 0,
            elapsed_ms: 0,
            pending_keys: Vec::new(),
        }
    }

    /// Leave the main menu and begin playing.
    pub fn start_gameplay(&mut self)
        requires
            old(self).mode == GameState::MainMenu,
        ensures
            *final(self) == (Simulation { mode: GameState::Gameplay, ..*old(self) }),
    {
        self.mode = GameState::Gameplay;
    }

    /// Queue one keystroke; it will be consumed by a later tick, oldest
    /// first.
    pub fn push_key(&mut self, key: char)
        ensures
            *final(self) == (Simulation {
                pending_keys: final(self).pending_keys,
                ..*old(self)
            }),
            final(self).pending_keys@ == old(self).pending_keys@.push(key),
    {
        self.pending_keys.push(key);
    }

    /// Population phase of a tick: spawn one enemy if the interval elapsed
    /// and the quota leaves room, advance every walking enemy, and let due
    /// generators give birth.
    pub fn advance_population(&mut self, now: u64, delta_ms: u64)
        requires
            old(self).wf(),
            delta_ms <= MAX_TICK_MS,
            now == old(self).elapsed_ms,
        ensures
            final(self).wf(),
            population_step(*old(self), *final(self), delta_ms),
            old(self).accounted() ==> final(self).accounted(),
    {
        let ghost acct = old(self).accounted();
        let ghost v0 = self.enemies@;
        let ghost id0 = self.next_id;
        spawn_entity(&mut self.stage, &mut self.enemies, &mut self.next_id, &self.words, now, delta_ms);
        let ghost ea = self.enemies@;
        let ghost sta = self.stage;
        let ghost ida = self.next_id;
        proof {
            lemma_locked_preserved(self.locked, v0, self.enemies@);
            if acct {
                assert forall|i: int| 0 <= i < self.enemies@.len() implies (
                #[trigger] self.enemies@[i]).life == self.enemies@[i].word@.len()
                    + count_targeting(self.projectiles@, self.enemies@[i].id) by {
                    if i < v0.len() {
                        assert(self.enemies@[i] == v0[i]);
                    } else {
                        lemma_count_targeting_none(self.projectiles@, self.enemies@[i].id);
                    }
                }
                assert(self.accounted());
            }
        }
        let ghost v1 = self.enemies@;
        enemy_walk(&mut self.enemies, delta_ms);
        proof {
            lemma_locked_preserved(self.locked, v1, self.enemies@);
            if acct {
                assert forall|i: int| 0 <= i < self.enemies@.len() implies (
                #[trigger] self.enemies@[i]).life == self.enemies@[i].word@.len()
                    + count_targeting(self.projectiles@, self.enemies@[i].id) by {
                    assert(self.enemies@[i] == crate::enemy::walked_enemy(v1[i], delta_ms));
                }
                assert(self.accounted());
            }
        }
        let ghost v2 = self.enemies@;
        let ghost id2 = self.next_id;
        if (self.next_id as u128) + (self.enemies.len() as u128) <= u64::MAX as u128
            && self.stage.enemies_alive <= usize::MAX - self.enemies.len() {
            generate_enemy(&mut self.stage, &mut self.enemies, &mut self.next_id, &self.words, now);
            proof {
                lemma_locked_preserved(self.locked, v2, self.enemies@);
                if acct {
                    assert forall|i: int| 0 <= i < self.enemies@.len() implies (
                    #[trigger] self.enemies@[i]).life == self.enemies@[i].word@.len()
                        + count_targeting(self.projectiles@, self.enemies@[i].id) by {
                        if i < v2.len() {
                            if crate::enemy::genitor_fires(v2[i], now) {
                                assert(self.enemies@[i] == crate::enemy::refreshed(v2[i], now));
                            } else {
                                assert(self.enemies@[i] == v2[i]);
                            }
                        } else {
                            assert(self.enemies@[i].id >= id2);
                            lemma_count_targeting_none(self.projectiles@, self.enemies@[i].id);
                        }
                    }
                    assert(self.accounted());
                }
            }
        }
        proof {
            assert(spawn_step(
                old(self).stage,
                old(self).enemies@,
                old(self).next_id,
                sta,
                ea,
                ida,
                old(self).words,
                old(self).elapsed_ms,
                delta_ms,
            ));
            assert(reproduce_step(
                sta,
                walked_all(ea, delta_ms),
                ida,
                self.stage,
                self.enemies@,
                self.next_id,
                old(self).words,
                old(self).elapsed_ms,
            ));
            assert(population_step(*old(self), *self, delta_ms));
        }
    }

    /// Combat phase of a tick: resolve the oldest pending keystroke, let
    /// every fish climb and apply the landing hits, and remove the enemies
    /// whose life reached zero.
    #[verifier::rlimit(60)]
    pub fn resolve_combat(&mut self, delta_ms: u64) -> (r: (Option<KeyOutcome>, Vec<Blood>))
        requires
            old(self).wf(),
            delta_ms <= MAX_TICK_MS,
        ensures
            final(self).wf(),
            combat_step(*old(self), *final(self), delta_ms, r.0, r.1@),
            final(self).pending_keys@ == if old(self).pending_keys@.len() > 0 {
                old(self).pending_keys@.drop_first()
            } else {
                old(self).pending_keys@
            },
            r.0 is Some <==> old(self).pending_keys@.len() > 0,
            forall|i: int|
                0 <= i < final(self).enemies@.len() ==> (#[trigger] final(self).enemies@[i]).life
                    > 0,
            old(self).accounted() ==> final(self).accounted(),
    {
        let ghost acct = old(self).accounted();
        let ghost mut skm = *self;
        let mut key_char: char = ' ';
        let outcome: Option<KeyOutcome> = if self.pending_keys.len() > 0 {
            let k = self.pending_keys.remove(0);
            key_char = k;
            proof {
                skm = *self;
            }
            Some(key_pressed(self, k))
        } else {
            None
        };
        let ghost sk = *self;
        proof {
            match outcome {
                None => {
                    assert(key_phase(*old(self), sk, outcome));
                },
                Some(o) => {
                    assert(skm.pending_keys@ =~= old(self).pending_keys@.drop_first());
                    assert(skm =~~= (Simulation { pending_keys: skm.pending_keys, ..*old(self) }));
                    assert(popped_key(*old(self), skm));
                    assert(key_step(skm, sk, old(self).pending_keys@[0], o));
                    assert(key_phase(*old(self), sk, outcome));
                },
            }
            if acct {
                match outcome {
                    None => {
                        assert(self.accounted());
                    },
                    Some(o) => {
                        if o == KeyOutcome::FreeMiss {
                            assert(self.accounted());
                        } else {
                            let ti = choose|ti: int| spec_target(skm, key_char, ti);
                            assert(crate::input::spec_resolved(skm, *self, key_char, ti, o));
                            let e = skm.enemies@[ti];
                            if e.word@[0] == key_char {
                                let thrown = crate::input::thrown_at(e);
                                assert forall|j: int| 0 <= j < self.enemies@.len() implies (
                                #[trigger] self.enemies@[j]).life == self.enemies@[j].word@.len()
                                    + count_targeting(self.projectiles@, self.enemies@[j].id) by {
                                    lemma_count_targeting_push(
                                        skm.projectiles@,
                                        thrown,
                                        self.enemies@[j].id,
                                    );
                                    if j != ti {
                                        assert(self.enemies@[j] == skm.enemies@[j]);
                                        assert(skm.enemies@[j].id != e.id);
                                    }
                                }
                                assert forall|k2: int| 0 <= k2 < self.projectiles@.len() implies (
                                #[trigger] self.projectiles@[k2]).target < self.next_id by {
                                    if k2 < skm.projectiles@.len() {
                                        assert(self.projectiles@[k2] == skm.projectiles@[k2]);
                                    } else {
                                        assert(self.projectiles@[k2] == thrown);
                                    }
                                }
                                assert(self.accounted());
                            } else {
                                assert forall|j: int| 0 <= j < self.enemies@.len() implies (
                                #[trigger] self.enemies@[j]).life == self.enemies@[j].word@.len()
                                    + count_targeting(self.projectiles@, self.enemies@[j].id) by {
                                    if j != ti {
                                        assert(self.enemies@[j] == skm.enemies@[j]);
                                    }
                                }
                                assert(self.accounted());
                            }
                        }
                    },
                }
            }
        }
        let ghost v3 = self.enemies@;
        let ghost ps3 = self.projectiles@;
        fish_and_enemy_collision(&mut self.enemies, &mut self.projectiles, delta_ms);
        let ghost v3b = self.enemies@;
        proof {
            lemma_locked_preserved(self.locked, v3, v3b);
            assert forall|i: int| 0 <= i < v3b.len() implies (#[trigger] v3b[i]).id
                < self.next_id by {
                assert(v3b[i].id == v3[i].id);
            }
            if acct {
                assert forall|i: int| 0 <= i < self.enemies@.len() implies (
                #[trigger] self.enemies@[i]).life == self.enemies@[i].word@.len()
                    + count_targeting(self.projectiles@, self.enemies@[i].id) by {
                    lemma_fish_accounting(ps3, delta_ms, v3[i].id);
                }
                lemma_kept_fish_targets(ps3, delta_ms, self.next_id);
                assert(self.accounted());
            }
        }
        let blood = despawn_enemies(&mut self.enemies, &mut self.locked);
        proof {
            crate::enemy::lemma_removal_exactly_once(v3b);
            if acct {
                assert forall|i: int| 0 <= i < self.enemies@.len() implies (
                #[trigger] self.enemies@[i]).life == self.enemies@[i].word@.len()
                    + count_targeting(self.projectiles@, self.enemies@[i].id) by {
                    assert(from_population(self.enemies@[i], v3b));
                    let j = choose|j: int|
                        0 <= j < v3b.len() && self.enemies@[i] == #[trigger] v3b[j];
                }
                assert(self.accounted());
            }
            let v4 = self.enemies@;
            match self.locked {
                Some(id) => {
                    let k = choose|k: int| 0 <= k < v4.len() && (#[trigger] v4[k]).id == id;
                    assert(from_population(v4[k], v3b));
                    let j = choose|j: int| 0 <= j < v3b.len() && v4[k] == #[trigger] v3b[j];
                    assert(v4[k].state == EnemyState::Walk) by {
                        let w = choose|w: int|
                            0 <= w < v3b.len() && (#[trigger] v3b[w]).id == id && v3b[w].state
                                == EnemyState::Walk;
                        assert(v3b[j].id == id);
                        assert(j == w);
                    }
                },
                None => {},
            }
            assert forall|i: int| 0 <= i < self.enemies@.len() implies (
            #[trigger] self.enemies@[i]).id < self.next_id by {
                assert(from_population(self.enemies@[i], v3b));
                let j = choose|j: int| 0 <= j < v3b.len() && self.enemies@[i] == #[trigger] v3b[j];
            }
            assert(collision_step(sk.enemies@, sk.projectiles@, v3b, self.projectiles@, delta_ms));
            assert(despawn_step(v3b, sk.locked, self.enemies@, self.locked, blood@));
            assert(combat_step(*old(self), *self, delta_ms, outcome, blood@));
        }
        (outcome, blood)
    }

    /// One tick of the simulation: the phases run in their fixed order —
    /// spawn, advance and reproduce enemies; resolve the oldest pending
    /// keystroke; advance projectiles and apply their hits; remove
    /// zero-life enemies; check the defeat band; and, if the run survived,
    /// check level completion.  Outside gameplay nothing happens at all;
    /// reaching the defeat band is terminal.  `tick_rel` pins the whole
    /// chain: the final state is what the population phase, the combat
    /// phase and the closing decisions make of the old one.
    pub fn tick(&mut self, delta_ms: u64) -> (fx: TickEffects)
        requires
            old(self).wf(),
            delta_ms <= MAX_TICK_MS,
        ensures
            final(self).wf(),
            old(self).mode != GameState::Gameplay ==> *final(self) == *old(self) && fx.blood@.len()
                == 0 && fx.outcome is None && !fx.leveled_up,
            old(self).mode == GameState::Gameplay ==> {
                &&& (final(self).mode == GameState::GameOver <==> exists|i: int|
                    0 <= i < final(self).enemies@.len() && in_defeat_band(
                        #[trigger] final(self).enemies@[i],
                    ))
                &&& (final(self).mode == GameState::Gameplay || final(self).mode
                    == GameState::GameOver)
                &&& final(self).elapsed_ms == if old(self).elapsed_ms + delta_ms <= u64::MAX {
                    old(self).elapsed_ms + delta_ms
                } else {
                    u64::MAX as int
                }
                &&& final(self).pending_keys@ == if old(self).pending_keys@.len() > 0 {
                    old(self).pending_keys@.drop_first()
                } else {
                    old(self).pending_keys@
                }
                &&& (fx.outcome is Some <==> old(self).pending_keys@.len() > 0)
                &&& (forall|i: int|
                    0 <= i < final(self).enemies@.len()
                        ==> (#[trigger] final(self).enemies@[i]).life > 0)
                &&& tick_rel(
                    *old(self),
                    *final(self),
                    delta_ms,
                    fx.outcome,
                    fx.blood@,
                    fx.leveled_up,
                )
            },
            old(self).accounted() ==> final(self).accounted(),
    {
        if !(self.mode == GameState::Gameplay) {
            return TickEffects { blood: Vec::new(), outcome: None, leveled_up: false };
        }
        self.elapsed_ms = if self.elapsed_ms <= u64::MAX - delta_ms {
            self.elapsed_ms + delta_ms
        } else {
            u64::MAX
        };
        let now = self.elapsed_ms;
        let ghost s0e = *self;
        self.advance_population(now, delta_ms);
        let ghost s1 = *self;
        let (outcome, blood) = self.resolve_combat(delta_ms);
        let ghost s2 = *self;
        let over = gameover(&self.enemies);
        let mut leveled_up = false;
        if over {
            self.mode = GameState::GameOver;
        } else {
            if self.stage.enemies_defeated >= self.stage.enemies_to_defeat
                && self.stage.enemies_alive == 0 {
                self.stage.reset();
                self.stage.next_level();
                proof {
                    assert(self.stage == s2.stage.spec_leveled());
                }
                leveled_up = true;
            }
        }
        proof {
            assert(s0e =~~= with_elapsed(*old(self), delta_ms));
            assert(population_step(with_elapsed(*old(self), delta_ms), s1, delta_ms));
            assert(combat_step(s1, s2, delta_ms, outcome, blood@));
            assert(*self =~~= (Simulation { mode: self.mode, stage: self.stage, ..s2 }));
            assert(conclude_step(s2, *self, leveled_up));
            assert(tick_rel(*old(self), *self, delta_ms, outcome, blood@, leveled_up));
        }
        TickEffects { blood, outcome, leveled_up }
    }
}

/// What one tick asks its caller to show: death effects to draw, what the
/// consumed keystroke (if any) did, and whether a new level began.
pub struct TickEffects {
    pub blood: Vec<Blood>,
    pub outcome: Option<KeyOutcome>,
    pub leveled_up: bool,
}

} // verus!
