//! Enemies: the records the population is made of, the playfield geometry,
//! and the per-tick phases that move, spawn, reproduce and remove them.
//!
//! All lengths are integers in tenths of a pixel; the vertical axis grows
//! upward, so walking enemies drift toward negative `y`.

use vstd::prelude::*;
use crate::player::{credit, spec_credit, PlayerScore, PlayerStats};
use crate::rng::{random_in_range, random_ratio};
use crate::stage::{SpawnTimer, StageComponent};
use crate::words::WordsResource;

verus! {

/// Playfield width in tenths of a pixel.
pub const WINDOW_WIDTH: i64 = 5120;
/// Playfield height in tenths of a pixel.
pub const WINDOW_HEIGHT: i64 = 8000;
/// Side of one sprite tile in tenths of a pixel.
pub const CASE_SIZE: i64 = 640;
/// Largest horizontal offset from the centre an enemy may spawn at
/// (eight tenths of the half-width).
pub const SPAWN_X_LIMIT: i64 = 2048;
/// Vertical position where new enemies appear, just above the top edge.
pub const ENEMY_SPAWN_Y: i64 = 4366;
/// Enemies never drift below this line; it lies a full window height under
/// the centre, far below the defeat band, so clamping there is invisible to
/// the rules of the game.
pub const FLOOR_Y: i64 = -WINDOW_HEIGHT;
/// Largest elapsed time one tick may carry, in milliseconds.
pub const MAX_TICK_MS: u64 = 60000;
/// Milliseconds between two gated spawn decisions when a run begins.
pub const SPAWN_TIME_INTERVAL: u64 = 2000;
/// The spawn interval never shrinks below this many milliseconds.
pub const MIN_SPAWN_TIME_INTERVAL: u64 = 500;
/// Milliseconds a generator enemy waits between two children.
pub const ENEMY_GENERATION_TIME_INTERVAL: u64 = 4000;
/// A walking enemy descends `velocity * WALK_SPEED_NUM * delta_ms /
/// WALK_SPEED_DEN` tenths of a pixel per tick.
pub const WALK_SPEED_NUM: u64 = 64;
/// See `WALK_SPEED_NUM`.
pub const WALK_SPEED_DEN: u64 = 4500;

/// Whether an enemy still walks toward the defeat line or stands idle
/// (word exhausted, waiting for the last projectiles to land).
#[derive(Clone, Copy, Debug, PartialEq, Eq, Structural)]
pub enum EnemyState {
    Walk,
    Idle,
}

/// The kind of enemy a generator gives birth to.
#[derive(Clone, Copy, Debug, PartialEq, Eq, Structural)]
pub enum EnemyGeneratedType {
    LittleSpider,
}

/// The generator attachment of a long-word enemy: it periodically spawns a
/// child enemy of `enemy_type`, `last_generation` being the simulation time
/// in milliseconds of its latest birth (or of its own spawn).
#[derive(Clone, Copy, Debug, PartialEq, Eq, Structural)]
pub struct EnemyGenitor {
    pub enemy_type: EnemyGeneratedType,
    pub last_generation: u64,
}

/// One enemy of the population.  `word` is what remains to be typed; `life`
/// starts at the word length and falls by one per projectile hit; `points`
/// is the reward credited when the word is exhausted, decaying on mistyped
/// keystrokes; `velocity` is in tenths of the base walking speed.
#[verifier::ext_equal]
pub struct Enemy {
    pub id: u64,
    pub word: Vec<char>,
    pub life: usize,
    pub state: EnemyState,
    pub velocity: u32,
    pub points: u32,
    pub x: i64,
    pub y: i64,
    pub genitor: Option<EnemyGenitor>,
    pub generated: bool,
}

/// A request for a transient death-effect sprite at the place an enemy was
/// removed, bigger when the enemy was a generator.  Purely visual.
#[derive(Clone, Copy, Debug, PartialEq, Eq, Structural)]
pub struct Blood {
    pub x: i64,
    pub y: i64,
    pub big: bool,
}

/// The geometric and structural facts every enemy of a well-formed
/// population satisfies.
pub open spec fn enemy_ok(e: Enemy) -> bool {
    &&& -SPAWN_X_LIMIT <= e.x <= SPAWN_X_LIMIT
    &&& FLOOR_Y <= e.y <= ENEMY_SPAWN_Y
    &&& (e.state == EnemyState::Walk <==> e.word@.len() > 0)
}

pub open spec fn all_enemies_ok(es: Seq<Enemy>) -> bool {
    forall|i: int| 0 <= i < es.len() ==> enemy_ok(#[trigger] es[i])
}

/// No two enemies of the population share an id.
pub open spec fn ids_unique(es: Seq<Enemy>) -> bool {
    forall|i: int, j: int|
        0 <= i < j < es.len() ==> (#[trigger] es[i]).id != (#[trigger] es[j]).id
}

/// The index of the enemy bearing `id`, if it is still in the population.
pub fn find_enemy(enemies: &Vec<Enemy>, id: u64) -> (r: Option<usize>)
    ensures
        match r {
            Some(i) => i < enemies@.len() && enemies@[i as int].id == id,
            None => forall|j: int| 0 <= j < enemies@.len() ==> (#[trigger] enemies@[j]).id != id,
        },
{
    let n = enemies.len();
    let mut i: usize = 0;
    while i < n
        invariant
            i <= n,
            n == enemies@.len(),
            forall|j: int| 0 <= j < i ==> (#[trigger] enemies@[j]).id != id,
        decreases n - i,
    {
        if enemies[i].id == id {
            return Some(i);
        }
        i += 1;
    }
    None
}

/// How far a walking enemy descends in one tick.
pub open spec fn walk_dy(velocity: u32, delta_ms: u64) -> int {
    velocity * WALK_SPEED_NUM * delta_ms / (WALK_SPEED_DEN as int)
}

/// The vertical position after one tick of walking, clamped at the floor.
pub open spec fn walked_y(y: i64, velocity: u32, delta_ms: u64) -> int {
    if y - walk_dy(velocity, delta_ms) < FLOOR_Y {
        FLOOR_Y as int
    } else {
        y - walk_dy(velocity, delta_ms)
    }
}

/// The enemy after one tick of movement: walking enemies drift down,
/// idle enemies stay in place.
pub open spec fn walked_enemy(e: Enemy, delta_ms: u64) -> Enemy {
    if e.state == EnemyState::Walk {
        Enemy { y: walked_y(e.y, e.velocity, delta_ms) as i64, ..e }
    } else {
        e
    }
}

/// The whole population after one tick of movement.
pub open spec fn walked_all(es: Seq<Enemy>, delta_ms: u64) -> Seq<Enemy> {
    Seq::new(es.len(), |i: int| walked_enemy(es[i], delta_ms))
}

/// Whether some enemy of the population bears this id.
pub open spec fn has_id(es: Seq<Enemy>, id: u64) -> bool {
    exists|i: int| 0 <= i < es.len() && (#[trigger] es[i]).id == id
}

/// Whether this enemy is one of the population (used to carry facts across
/// removals).
pub open spec fn from_population(e: Enemy, es: Seq<Enemy>) -> bool {
    exists|j: int| 0 <= j < es.len() && e == #[trigger] es[j]
}

/// The death effect an enemy leaves behind: at its last position, bigger
/// when it was a generator.
pub open spec fn blood_of(e: Enemy) -> Blood {
    Blood { x: e.x, y: e.y, big: e.genitor is Some }
}

/// The population once every enemy whose life reached zero is removed,
/// order preserved.
pub open spec fn remove_dead(es: Seq<Enemy>) -> Seq<Enemy>
    decreases es.len(),
{
    if es.len() == 0 {
        Seq::<Enemy>::empty()
    } else {
        let rest = remove_dead(es.drop_first());
        if es.first().life == 0 {
            rest
        } else {
            seq![es.first()] + rest
        }
    }
}

/// The death effects of the enemies removed by `remove_dead`, in order.
pub open spec fn dead_blood(es: Seq<Enemy>) -> Seq<Blood>
    decreases es.len(),
{
    if es.len() == 0 {
        Seq::<Blood>::empty()
    } else {
        let rest = dead_blood(es.drop_first());
        if es.first().life == 0 {
            seq![blood_of(es.first())] + rest
        } else {
            rest
        }
    }
}

pub proof fn lemma_remove_dead_push(es: Seq<Enemy>, e: Enemy)
    ensures
        remove_dead(es.push(e)) == remove_dead(es) + (
        if e.life == 0 {
            Seq::<Enemy>::empty()
        } else {
            seq![e]
        }),
        dead_blood(es.push(e)) == dead_blood(es) + (
        if e.life == 0 {
            seq![blood_of(e)]
        } else {
            Seq::<Blood>::empty()
        }),
    decreases es.len(),
{
    if es.len() == 0 {
        assert(es.push(e).first() == e);
        assert(es.push(e).drop_first() =~= Seq::<Enemy>::empty());
        assert(remove_dead(es.push(e).drop_first()) =~= Seq::<Enemy>::empty());
        assert(dead_blood(es.push(e).drop_first()) =~= Seq::<Blood>::empty());
        assert(remove_dead(es.push(e)) =~= remove_dead(es) + (
        if e.life == 0 {
            Seq::<Enemy>::empty()
        } else {
            seq![e]
        }));
        assert(dead_blood(es.push(e)) =~= dead_blood(es) + (
        if e.life == 0 {
            seq![blood_of(e)]
        } else {
            Seq::<Blood>::empty()
        }));
    } else {
        assert(es.push(e).first() == es.first());
        assert(es.push(e).drop_first() =~= es.drop_first().push(e));
        lemma_remove_dead_push(es.drop_first(), e);
        assert(remove_dead(es.push(e)) =~= remove_dead(es) + (
        if e.life == 0 {
            Seq::<Enemy>::empty()
        } else {
            seq![e]
        }));
        assert(dead_blood(es.push(e)) =~= dead_blood(es) + (
        if e.life == 0 {
            seq![blood_of(e)]
        } else {
            Seq::<Blood>::empty()
        }));
    }
}


/// The whole effect of the removal phase: the survivors are exactly the
/// enemies whose life is above zero, in order; the removed leave one death
/// effect each, in order; and a lock on a removed enemy is cleared.
pub open spec fn despawn_step(
    es0: Seq<Enemy>,
    locked0: Option<u64>,
    es1: Seq<Enemy>,
    locked1: Option<u64>,
    blood: Seq<Blood>,
) -> bool {
    &&& es1 == remove_dead(es0)
    &&& blood == dead_blood(es0)
    &&& locked1 == (match locked0 {
        Some(id) => if has_id(remove_dead(es0), id) {
            Some(id)
        } else {
            None::<u64>
        },
        None => None::<u64>,
    })
}

/// Removal phase: every enemy whose life reached zero leaves the
/// population, exactly once, leaving a death-effect request at its last
/// position; the others keep their order.  A target lock on a removed enemy
/// is cleared.
pub fn despawn_enemies(enemies: &mut Vec<Enemy>, locked: &mut Option<u64>) -> (blood: Vec<Blood>)
    requires
        all_enemies_ok(old(enemies)@),
        ids_unique(old(enemies)@),
    ensures
        despawn_step(old(enemies)@, *old(locked), final(enemies)@, *final(locked), blood@),
        all_enemies_ok(final(enemies)@),
        ids_unique(final(enemies)@),
        forall|k: int|
            0 <= k < final(enemies)@.len() ==> from_population(
                #[trigger] final(enemies)@[k],
                old(enemies)@,
            ),
{
    let ghost orig = enemies@;
    let mut blood: Vec<Blood> = Vec::new();
    let mut i: usize = 0;
    proof {
        assert(orig.skip(0) =~= orig);
        assert(orig.take(0) =~= Seq::<Enemy>::empty());
        assert(remove_dead(orig) =~= orig.take(0) + remove_dead(orig.skip(0)));
        assert(dead_blood(orig) =~= Seq::<Blood>::empty() + dead_blood(orig.skip(0)));
    }
    while i < enemies.len()
        invariant
            i <= enemies@.len(),
            all_enemies_ok(enemies@),
            ids_unique(enemies@),
            forall|j: int| 0 <= j < i ==> (#[trigger] enemies@[j]).life != 0,
            remove_dead(orig) =~= enemies@.take(i as int) + remove_dead(enemies@.skip(i as int)),
            dead_blood(orig) =~= blood@ + dead_blood(enemies@.skip(i as int)),
            forall|k: int|
                0 <= k < enemies@.len() ==> from_population(#[trigger] enemies@[k], orig),
        decreases enemies@.len() - i,
    {
        let ghost s = enemies@;
        proof {
            assert(s.skip(i as int).first() == s[i as int]);
            assert(s.skip(i as int).drop_first() =~= s.skip(i + 1));
        }
        if enemies[i].life == 0 {
            let e = enemies.remove(i);
            blood.push(Blood { x: e.x, y: e.y, big: e.genitor.is_some() });
            proof {
                assert(enemies@ =~= s.take(i as int) + s.skip(i + 1));
                assert(enemies@.take(i as int) =~= s.take(i as int));
                assert(enemies@.skip(i as int) =~= s.skip(i + 1));
            }
        } else {
            proof {
                assert(remove_dead(s.skip(i as int)) =~= seq![s[i as int]] + remove_dead(
                    s.skip(i + 1),
                ));
                assert(s.take(i + 1) =~= s.take(i as int).push(s[i as int]));
            }
            i += 1;
        }
    }
    proof {
        assert(enemies@.skip(i as int) =~= Seq::<Enemy>::empty());
        assert(enemies@.take(i as int) =~= enemies@);
        assert(final(enemies)@ =~= remove_dead(orig));
        assert(blood@ =~= dead_blood(orig));
    }
    match *locked {
        Some(id) => {
            match find_enemy(enemies, id) {
                Some(_) => {},
                None => {
                    *locked = None;
                },
            }
        },
        None => {},
    }
    blood
}

/// Movement phase: every walking enemy descends by its velocity scaled with
/// the elapsed time; idle enemies do not move.
pub fn enemy_walk(enemies: &mut Vec<Enemy>, delta_ms: u64)
    requires
        delta_ms <= MAX_TICK_MS,
        all_enemies_ok(old(enemies)@),
    ensures
        final(enemies)@.len() == old(enemies)@.len(),
        final(enemies)@ == walked_all(old(enemies)@, delta_ms),
        forall|i: int|
            0 <= i < old(enemies)@.len() ==> final(enemies)@[i] == walked_enemy(
                old(enemies)@[i],
                delta_ms,
            ),
        all_enemies_ok(final(enemies)@),
{
    let n = enemies.len();
    let mut i: usize = 0;
    while i < n
        invariant
            n == enemies@.len() == old(enemies)@.len(),
            i <= n,
            delta_ms <= MAX_TICK_MS,
            all_enemies_ok(old(enemies)@),
            forall|j: int|
                0 <= j < i ==> enemies@[j] == walked_enemy(old(enemies)@[j], delta_ms),
            forall|j: int| i <= j < n ==> enemies@[j] == old(enemies)@[j],
        decreases n - i,
    {
        let walking = enemies[i].state == EnemyState::Walk;
        if walking {
            let v: u64 = enemies[i].velocity as u64;
            assert(v * WALK_SPEED_NUM * delta_ms <= 0xffff_ffffu64 * 64 * 60000)
                by (nonlinear_arith)
                requires
                    v <= 0xffff_ffffu64,
                    delta_ms <= 60000,
            ;
            let dy: i64 = ((v * WALK_SPEED_NUM * delta_ms) / WALK_SPEED_DEN) as i64;
            let e = &mut enemies[i];
            let ny = e.y - dy;
            if ny < FLOOR_Y {
                e.y = FLOOR_Y;
            } else {
                e.y = ny;
            }
            assert(enemies@[i as int] =~= walked_enemy(old(enemies)@[i as int], delta_ms));
        }
        i += 1;
    }
    proof {
        assert(enemies@ =~= walked_all(old(enemies)@, delta_ms));
    }
}

/// Append one newly spawned enemy, walking, with its life equal to its
/// word length and a fresh id.
pub fn spawn_enemy(
    enemies: &mut Vec<Enemy>,
    next_id: &mut u64,
    word: Vec<char>,
    velocity: u32,
    points: u32,
    x: i64,
    y: i64,
    genitor: Option<EnemyGenitor>,
    generated: bool,
)
    requires
        word@.len() > 0,
        *old(next_id) < u64::MAX,
        -SPAWN_X_LIMIT <= x <= SPAWN_X_LIMIT,
        FLOOR_Y <= y <= ENEMY_SPAWN_Y,
    ensures
        *final(next_id) == *old(next_id) + 1,
        final(enemies)@.len() == old(enemies)@.len() + 1,
        forall|j: int| 0 <= j < old(enemies)@.len() ==> final(enemies)@[j] == old(enemies)@[j],
        final(enemies)@.last().id == *old(next_id),
        final(enemies)@.last().word@ == word@,
        final(enemies)@.last().life == word@.len(),
        final(enemies)@.last().state == EnemyState::Walk,
        final(enemies)@.last().velocity == velocity,
        final(enemies)@.last().points == points,
        final(enemies)@.last().x == x,
        final(enemies)@.last().y == y,
        final(enemies)@.last().genitor == genitor,
        final(enemies)@.last().generated == generated,
{
    let life = word.len();
    let e = Enemy {
        id: *next_id,
        word,
        life,
        state: EnemyState::Walk,
        velocity,
        points,
        x,
        y,
        genitor,
        generated,
    };
    enemies.push(e);
    *next_id = *next_id + 1;
}

/// The stage once its spawn timer advanced by a tick, everything else
/// untouched.
pub open spec fn with_ticked_timer(st: StageComponent, delta_ms: u64) -> StageComponent {
    StageComponent {
        spawn_timer: SpawnTimer {
            interval_ms: st.spawn_timer.interval_ms,
            elapsed_ms: ((st.spawn_timer.elapsed_ms + delta_ms) % (
            st.spawn_timer.interval_ms as int)) as u64,
        },
        ..st
    }
}

/// What a gated spawn may produce: a long-word generator enemy (only while
/// the long gate is open), a special punctuation enemy (only above level
/// three), or a short-word enemy.  Every kind walks in from just above the
/// top edge, with its life equal to its word length.
pub open spec fn spawned_shape(
    e: Enemy,
    st: StageComponent,
    words: WordsResource,
    id: u64,
    now_ms: u64,
) -> bool {
    &&& e.id == id
    &&& e.life == e.word@.len()
    &&& e.state == EnemyState::Walk
    &&& e.word@.len() > 0
    &&& -SPAWN_X_LIMIT <= e.x <= SPAWN_X_LIMIT
    &&& e.y == ENEMY_SPAWN_Y
    &&& e.generated == false
    &&& match e.genitor {
        Some(g) => {
            &&& st.spec_can_spawn_long()
            &&& g.last_generation == now_ms
            &&& g.enemy_type == EnemyGeneratedType::LittleSpider
            &&& e.velocity == 7 + st.level
            &&& e.points == 10
            &&& exists|i: int|
                0 <= i < words.long_words@.len() && e.word@ == (#[trigger] words.long_words@[i])@
        },
        None => {
            ||| {
                &&& st.level > 3
                &&& e.velocity == 7 + st.level
                &&& e.points == 12
                &&& 3 <= e.word@.len() <= 6
                &&& forall|i: int|
                    0 <= i < e.word@.len() ==> words.special_chars@.contains(#[trigger] e.word@[i])
            }
            ||| {
                &&& e.velocity == 10 + st.level
                &&& e.points == 5
                &&& exists|i: int|
                    0 <= i < words.short_words@.len() && e.word@ == (
                    #[trigger] words.short_words@[i])@
            }
        },
    }
}


/// The whole effect of one spawn decision, relating the stage, population
/// and id counter before and after it.  While the quota is covered nothing
/// moves, not even the timer; while the timer has not elapsed only the
/// timer moves; otherwise exactly one enemy of one of the allowed shapes
/// is appended and the stage's birth accounting follows its kind.  A spawn
/// decision never drives the population past the quota.
pub open spec fn spawn_step(
    st0: StageComponent,
    es0: Seq<Enemy>,
    id0: u64,
    st1: StageComponent,
    es1: Seq<Enemy>,
    id1: u64,
    words: WordsResource,
    now_ms: u64,
    delta_ms: u64,
) -> bool {
    &&& id1 >= id0
    &&& es1.len() >= es0.len()
    &&& (forall|j: int| 0 <= j < es0.len() ==> #[trigger] es1[j] == es0[j])
    &&& (forall|k: int|
        es0.len() <= k < es1.len() ==> (#[trigger] es1[k]).life == es1[k].word@.len()
            && es1[k].id >= id0)
    &&& (!st0.spec_can_spawn() ==> st1 == st0 && es1 == es0 && id1 == id0)
    &&& (st0.spec_can_spawn() && st0.spawn_timer.elapsed_ms + delta_ms
        < st0.spawn_timer.interval_ms ==> st1 == with_ticked_timer(st0, delta_ms) && es1 == es0
        && id1 == id0)
    &&& (st0.spec_can_spawn() && st0.spawn_timer.elapsed_ms + delta_ms
        >= st0.spawn_timer.interval_ms && id0 < u64::MAX ==> {
        &&& id1 == id0 + 1
        &&& es1.len() == es0.len() + 1
        &&& spawned_shape(es1.last(), st0, words, id0, now_ms)
        &&& st1 == with_ticked_timer(st0, delta_ms).spec_born(es1.last().genitor is Some)
    })
    &&& (st0.enemies_alive + st0.enemies_defeated <= st0.enemies_to_defeat
        ==> st1.enemies_alive + st1.enemies_defeated <= st1.enemies_to_defeat)
}

/// Spawn phase: while the level's quota leaves room, the spawn timer runs;
/// each time its interval elapses one enemy spawns at a random horizontal
/// position — a generator if the long gate is open and a coin flip agrees,
/// else (above level three, with low probability) a special enemy, else a
/// short-word enemy — and the stage's birth accounting follows its kind.
/// While the quota is covered, nothing moves, not even the timer.
pub fn spawn_entity(
    stage: &mut StageComponent,
    enemies: &mut Vec<Enemy>,
    next_id: &mut u64,
    words: &WordsResource,
    now_ms: u64,
    delta_ms: u64,
)
    requires
        old(stage).wf(),
        words.wf(),
        delta_ms <= MAX_TICK_MS,
        all_enemies_ok(old(enemies)@),
        ids_unique(old(enemies)@),
        forall|j: int| 0 <= j < old(enemies)@.len()
            ==> (#[trigger] old(enemies)@[j]).id < *old(next_id),
    ensures
        final(stage).wf(),
        all_enemies_ok(final(enemies)@),
        ids_unique(final(enemies)@),
        forall|j: int| 0 <= j < final(enemies)@.len() ==> (#[trigger] final(enemies)@[j]).id
            < *final(next_id),
        spawn_step(
            *old(stage),
            old(enemies)@,
            *old(next_id),
            *final(stage),
            final(enemies)@,
            *final(next_id),
            *words,
            now_ms,
            delta_ms,
        ),
{
    if !stage.can_spawn_enemy() {
        return ;
    }
    let fired = stage.spawn_timer.tick(delta_ms);
    if !fired {
        return ;
    }
    if *next_id == u64::MAX {
        return ;
    }
    let ghost st0 = *old(stage);
    let x = random_in_range(-SPAWN_X_LIMIT, SPAWN_X_LIMIT);
    let spawn_long = if stage.can_spawn_long_enemy() {
        random_ratio(1, 2)
    } else {
        false
    };
    if spawn_long {
        let velocity = 7 + stage.level as u32;
        let word = words.long_word();
        spawn_enemy(
            enemies,
            next_id,
            word,
            velocity,
            10,
            x,
            ENEMY_SPAWN_Y,
            Some(
                EnemyGenitor {
                    enemy_type: EnemyGeneratedType::LittleSpider,
                    last_generation: now_ms,
                },
            ),
            false,
        );
        stage.enemy_born(true);
    } else if stage.level > 3 && random_ratio(1, 10) {
        let velocity = 7 + stage.level as u32;
        let word = words.special_word();
        spawn_enemy(enemies, next_id, word, velocity, 12, x, ENEMY_SPAWN_Y, None, false);
        stage.enemy_born(false);
    } else {
        let velocity = 10 + stage.level as u32;
        let word = words.short_word();
        spawn_enemy(enemies, next_id, word, velocity, 5, x, ENEMY_SPAWN_Y, None, false);
        stage.enemy_born(false);
    }
}

/// Whether this enemy's generator is due to give birth: it must still be
/// walking and its regeneration interval must have elapsed since its last
/// birth.
pub open spec fn genitor_fires(e: Enemy, now_ms: u64) -> bool {
    e.state == EnemyState::Walk && match e.genitor {
        Some(g) => now_ms >= g.last_generation + ENEMY_GENERATION_TIME_INTERVAL,
        None => false,
    }
}

/// The enemy with its generator's birth timestamp moved to `now_ms`.
pub open spec fn refreshed(e: Enemy, now_ms: u64) -> Enemy {
    match e.genitor {
        Some(g) => Enemy {
            genitor: Some(EnemyGenitor { enemy_type: g.enemy_type, last_generation: now_ms }),
            ..e
        },
        None => e,
    }
}

/// How many generators of the population are due to give birth.
pub open spec fn count_firing(es: Seq<Enemy>, now_ms: u64) -> nat
    decreases es.len(),
{
    if es.len() == 0 {
        0
    } else {
        (if genitor_fires(es.first(), now_ms) {
            1nat
        } else {
            0nat
        }) + count_firing(es.drop_first(), now_ms)
    }
}

pub proof fn lemma_count_firing_push(es: Seq<Enemy>, e: Enemy, now_ms: u64)
    ensures
        count_firing(es.push(e), now_ms) == count_firing(es, now_ms) + (
        if genitor_fires(e, now_ms) {
            1nat
        } else {
            0nat
        }),
    decreases es.len(),
{
    if es.len() == 0 {
        assert(es.push(e).first() == e);
        assert(es.push(e).drop_first() =~= Seq::<Enemy>::empty());
        assert(count_firing(es.push(e).drop_first(), now_ms) == 0);
    } else {
        assert(es.push(e).first() == es.first());
        assert(es.push(e).drop_first() =~= es.drop_first().push(e));
        lemma_count_firing_push(es.drop_first(), e, now_ms);
    }
}

pub proof fn lemma_count_firing_le_len(es: Seq<Enemy>, now_ms: u64)
    ensures
        count_firing(es, now_ms) <= es.len(),
    decreases es.len(),
{
    if es.len() > 0 {
        lemma_count_firing_le_len(es.drop_first(), now_ms);
    }
}

/// Where a generator's child appears: one tile below its parent, clamped
/// at the floor.
pub open spec fn child_y(parent_y: i64) -> int {
    if parent_y - CASE_SIZE < FLOOR_Y {
        FLOOR_Y as int
    } else {
        parent_y - CASE_SIZE
    }
}

/// What a generator's child looks like: a short-word enemy directly below
/// its parent, a little faster than a gated short enemy, worth three
/// points, marked as generated so its defeat does not count toward the
/// level quota.
pub open spec fn child_shape(c: Enemy, parent: Enemy, level: u16, words: WordsResource) -> bool {
    &&& c.life == c.word@.len()
    &&& c.state == EnemyState::Walk
    &&& c.word@.len() > 0
    &&& exists|i: int|
        0 <= i < words.short_words@.len() && c.word@ == (#[trigger] words.short_words@[i])@
    &&& c.velocity == 12 + level
    &&& c.points == 3
    &&& c.x == parent.x
    &&& c.y == child_y(parent.y)
    &&& c.genitor is None
    &&& c.generated == true
}

/// Whether `c` is the child of some generator of `es` that was due to give
/// birth at `now_ms`.
pub open spec fn some_parent_child(
    c: Enemy,
    es: Seq<Enemy>,
    now_ms: u64,
    level: u16,
    words: WordsResource,
) -> bool {
    exists|p: int|
        0 <= p < es.len() && genitor_fires(#[trigger] es[p], now_ms) && child_shape(
            c,
            es[p],
            level,
            words,
        )
}


/// The whole effect of one reproduction pass over the population: every
/// due generator's timestamp restarts, one child per due generator is
/// appended in order with consecutive fresh ids, and the stage's count of
/// living enemies grows by the number of births.
pub open spec fn generate_step(
    st0: StageComponent,
    es0: Seq<Enemy>,
    id0: u64,
    st1: StageComponent,
    es1: Seq<Enemy>,
    id1: u64,
    words: WordsResource,
    now_ms: u64,
) -> bool {
    &&& id1 == id0 + count_firing(es0, now_ms)
    &&& es1.len() == es0.len() + count_firing(es0, now_ms)
    &&& (forall|k: int|
        0 <= k < es0.len() ==> es1[k] == (if genitor_fires(es0[k], now_ms) {
            refreshed(es0[k], now_ms)
        } else {
            es0[k]
        }))
    &&& (forall|k: int|
        es0.len() <= k < es1.len() ==> (#[trigger] es1[k]).id == id0 + k - es0.len())
    &&& (forall|k: int|
        es0.len() <= k < es1.len() ==> some_parent_child(
            #[trigger] es1[k],
            es0,
            now_ms,
            st0.level,
            words,
        ))
    &&& st1 == (StageComponent {
        enemies_alive: (st0.enemies_alive + count_firing(es0, now_ms)) as usize,
        ..st0
    })
}

/// The reproduction pass, or — only at the machine limits of the id and
/// population counters, which no run reaches — no pass at all.
pub open spec fn reproduce_step(
    st0: StageComponent,
    es0: Seq<Enemy>,
    id0: u64,
    st1: StageComponent,
    es1: Seq<Enemy>,
    id1: u64,
    words: WordsResource,
    now_ms: u64,
) -> bool {
    if id0 + es0.len() <= u64::MAX && st0.enemies_alive + es0.len() <= usize::MAX {
        generate_step(st0, es0, id0, st1, es1, id1, words, now_ms)
    } else {
        st1 == st0 && es1 == es0 && id1 == id0
    }
}

/// Reproduction phase: every walking generator whose interval has elapsed
/// since its last birth spawns one short-word child directly below itself,
/// registers it with the stage as a birth that will not count toward the
/// level quota, and restarts its own interval.  Children spawned this tick
/// do not reproduce within it.
pub fn generate_enemy(
    stage: &mut StageComponent,
    enemies: &mut Vec<Enemy>,
    next_id: &mut u64,
    words: &WordsResource,
    now_ms: u64,
)
    requires
        words.wf(),
        all_enemies_ok(old(enemies)@),
        ids_unique(old(enemies)@),
        forall|j: int| 0 <= j < old(enemies)@.len()
            ==> (#[trigger] old(enemies)@[j]).id < *old(next_id),
        *old(next_id) + old(enemies)@.len() <= u64::MAX,
        old(stage).enemies_alive + old(enemies)@.len() <= usize::MAX,
    ensures
        all_enemies_ok(final(enemies)@),
        ids_unique(final(enemies)@),
        forall|j: int| 0 <= j < final(enemies)@.len()
            ==> (#[trigger] final(enemies)@[j]).id < *final(next_id),
        generate_step(
            *old(stage),
            old(enemies)@,
            *old(next_id),
            *final(stage),
            final(enemies)@,
            *final(next_id),
            *words,
            now_ms,
        ),
{
    let ghost orig = enemies@;
    let ghost st0 = *stage;
    let ghost id0 = *next_id;
    let n = enemies.len();
    let mut j: usize = 0;
    proof {
        assert(orig.take(0) =~= Seq::<Enemy>::empty());
        lemma_count_firing_le_len(orig, now_ms);
    }
    while j < n
        invariant
            j <= n,
            n == orig.len(),
            words.wf(),
            all_enemies_ok(orig),
            ids_unique(orig),
            id0 + orig.len() <= u64::MAX,
            st0.enemies_alive + orig.len() <= usize::MAX,
            enemies@.len() == orig.len() + count_firing(orig.take(j as int), now_ms),
            all_enemies_ok(enemies@),
            ids_unique(enemies@),
            forall|k: int| 0 <= k < enemies@.len() ==> (#[trigger] enemies@[k]).id < *next_id,
            *next_id == id0 + count_firing(orig.take(j as int), now_ms),
            count_firing(orig.take(j as int), now_ms) <= j,
            forall|k: int|
                0 <= k < j ==> enemies@[k] == (if genitor_fires(orig[k], now_ms) {
                    refreshed(orig[k], now_ms)
                } else {
                    orig[k]
                }),
            forall|k: int| j <= k < n ==> enemies@[k] == orig[k],
            forall|k: int|
                n <= k < enemies@.len() ==> (#[trigger] enemies@[k]).id == id0 + k - n,
            forall|k: int|
                n <= k < enemies@.len() ==> some_parent_child(
                    #[trigger] enemies@[k],
                    orig,
                    now_ms,
                    st0.level,
                    *words,
                ),
            *stage == (StageComponent {
                enemies_alive: (st0.enemies_alive + count_firing(orig.take(j as int), now_ms)) as usize,
                ..st0
            }),
        decreases n - j,
    {
        proof {
            assert(orig.take(j + 1) =~= orig.take(j as int).push(orig[j as int]));
            lemma_count_firing_push(orig.take(j as int), orig[j as int], now_ms);
        }
        let ghost pre = enemies@;
        let e = &mut enemies[j];
        let mut px: i64 = 0;
        let mut py: i64 = 0;
        let mut fires = false;
        if e.state == EnemyState::Walk {
            match e.genitor {
                Some(g) => {
                    if now_ms >= ENEMY_GENERATION_TIME_INTERVAL && now_ms
                        - ENEMY_GENERATION_TIME_INTERVAL >= g.last_generation {
                        fires = true;
                        px = e.x;
                        py = e.y;
                        e.genitor = Some(
                            EnemyGenitor {
                                enemy_type: g.enemy_type,
                                last_generation: now_ms,
                            },
                        );
                    }
                },
                None => {},
            }
        }
        if fires {
            let cy = if py - CASE_SIZE < FLOOR_Y {
                FLOOR_Y
            } else {
                py - CASE_SIZE
            };
            let velocity = 12 + stage.level as u32;
            let word = words.short_word();
            spawn_enemy(enemies, next_id, word, velocity, 3, px, cy, None, true);
            stage.enemy_born(false);
            proof {
                assert(genitor_fires(orig[j as int], now_ms));
                assert(child_shape(
                    enemies@[enemies@.len() - 1],
                    orig[j as int],
                    st0.level,
                    *words,
                ));
                assert(some_parent_child(
                    enemies@[enemies@.len() - 1],
                    orig,
                    now_ms,
                    st0.level,
                    *words,
                ));
                assert forall|k: int| n <= k < enemies@.len() - 1 implies some_parent_child(
                    #[trigger] enemies@[k],
                    orig,
                    now_ms,
                    st0.level,
                    *words,
                ) by {
                    assert(enemies@[k] == pre[k]);
                    assert(some_parent_child(pre[k], orig, now_ms, st0.level, *words));
                }
            }
        }
        j += 1;
    }
    proof {
        assert(orig.take(n as int) =~= orig);
    }
}

/// Removal is complete and happens exactly once: after the removal phase
/// no enemy's life is zero, every enemy of the old population either stays
/// (life above zero) or leaves exactly one death effect behind, and the
/// survivors keep their order.
pub proof fn lemma_removal_exactly_once(es: Seq<Enemy>)
    ensures
        forall|k: int|
            0 <= k < remove_dead(es).len() ==> (#[trigger] remove_dead(es)[k]).life > 0,
        remove_dead(es).len() + dead_blood(es).len() == es.len(),
    decreases es.len(),
{
    if es.len() > 0 {
        lemma_removal_exactly_once(es.drop_first());
    }
}

/// Scoring on word completion: the instant an enemy's word is exhausted,
/// the player's score grows by the enemy's reward scaled with one plus the
/// bonus ratio (rounded down), the combo streak grows by one, the bonus
/// ratio rises one step, and the stage registers the defeat — counting
/// toward the level quota only when the enemy was not a generator's child.
/// The enemy itself stays on screen until its life reaches zero.
pub fn give_point_when_dead(
    stage: &mut StageComponent,
    score: &mut PlayerScore,
    stats: &mut PlayerStats,
    points: u32,
    generated: bool,
)
    ensures
        final(score).0 == if old(score).0 + spec_credit(points, old(stage).bonus_ratio)
            <= u64::MAX {
            old(score).0 + spec_credit(points, old(stage).bonus_ratio)
        } else {
            u64::MAX as int
        },
        *final(stats) == old(stats).spec_scored(),
        *final(stage) == old(stage).spec_scored(generated),
{
    let c = credit(points, stage.bonus());
    score.add(c);
    stats.register_kill();
    stage.increase_bonus();
    stage.enemy_defeated(!generated);
}

} // verus!
