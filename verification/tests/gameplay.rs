//! End-to-end scenarios of the simulation: target acquisition, word
//! matching, scoring, projectiles, removal, defeat and level completion.

use penguin_typing::enemy::{
    despawn_enemies, enemy_walk, generate_enemy, spawn_entity, Enemy, EnemyGeneratedType,
    EnemyGenitor, EnemyState, ENEMY_SPAWN_Y,
};
use penguin_typing::input::{key_pressed, KeyOutcome};
use penguin_typing::penguins::{fish_and_enemy_collision, FishThrowed, PENGUIN_THROW_ORIGIN_Y};
use penguin_typing::player::{credit, PlayerScore, PlayerStats};
use penguin_typing::sim::{GameState, Simulation};
use penguin_typing::stage::StageComponent;
use penguin_typing::words::WordsResource;

fn enemy_with_word(id: u64, word: &str, points: u32, x: i64, y: i64) -> Enemy {
    Enemy {
        id,
        word: word.chars().collect(),
        life: word.len(),
        state: EnemyState::Walk,
        velocity: 10,
        points,
        x,
        y,
        genitor: None,
        generated: false,
    }
}

fn sim_with_enemies(enemies: Vec<Enemy>) -> Simulation {
    let next_id = enemies.iter().map(|e| e.id).max().map_or(0, |m| m + 1);
    Simulation {
        mode: GameState::Gameplay,
        stage: StageComponent::new(),
        score: PlayerScore(0),
        stats: PlayerStats::new(),
        words: WordsResource::from_file(),
        enemies,
        projectiles: Vec::new(),
        locked: None,
        next_id,
        elapsed_ms: 0,
        pending_keys: Vec::new(),
    }
}

#[test]
fn scenario_word_not_typed_through() {
    let mut sim = sim_with_enemies(vec![enemy_with_word(7, "not", 100, 100, 0)]);
    sim.stage.enemy_born(false);

    let o1 = key_pressed(&mut sim, 'n');
    assert_eq!(o1, KeyOutcome::Hit);
    assert_eq!(sim.locked, Some(7));
    assert_eq!(sim.projectiles.len(), 1);
    assert_eq!(sim.enemies[0].word, vec!['o', 't']);

    let o2 = key_pressed(&mut sim, 'o');
    assert_eq!(o2, KeyOutcome::Hit);
    assert_eq!(sim.projectiles.len(), 2);

    let o3 = key_pressed(&mut sim, 't');
    assert_eq!(o3, KeyOutcome::WordComplete);
    // score is floor(reward * (1 + bonus)) with bonus zero
    assert_eq!(sim.score.0, 100);
    assert_eq!(sim.stats.combos_count, 1);
    assert_eq!(sim.locked, None);
    assert_eq!(sim.enemies[0].state, EnemyState::Idle);
    // the enemy is still present: its life only falls when fish land
    assert_eq!(sim.enemies.len(), 1);
    assert_eq!(sim.enemies[0].life, 3);
    assert_eq!(sim.projectiles.len(), 3);
    assert_eq!(sim.stage.enemies_defeated, 1);
    assert_eq!(sim.stage.enemies_alive, 0);

    // let every fish land: the target is at y == 0, fish start at the
    // throw origin, so one long tick carries them all the way
    fish_and_enemy_collision(&mut sim.enemies, &mut sim.projectiles, 1000);
    assert_eq!(sim.projectiles.len(), 0);
    assert_eq!(sim.enemies[0].life, 0);

    let blood = despawn_enemies(&mut sim.enemies, &mut sim.locked);
    assert_eq!(sim.enemies.len(), 0);
    assert_eq!(blood.len(), 1);
    assert!(!blood[0].big);
}

#[test]
fn scenario_free_miss_on_unmatched_key() {
    let mut sim = sim_with_enemies(vec![enemy_with_word(1, "not", 100, 0, 0)]);
    sim.stage.increase_bonus();
    assert_eq!(sim.stage.bonus_ratio, 2);

    let out = key_pressed(&mut sim, 'z');
    assert_eq!(out, KeyOutcome::FreeMiss);
    // bonus fell by a fifth of a unit, floored at zero
    assert_eq!(sim.stage.bonus_ratio, 0);
    assert_eq!(sim.stats.combos_count, 0);
    assert_eq!(sim.stats.misses, 1);
    assert_eq!(sim.locked, None);
    assert!(sim.projectiles.is_empty());

    // a second free miss keeps the bonus floored at zero
    let out = key_pressed(&mut sim, 'z');
    assert_eq!(out, KeyOutcome::FreeMiss);
    assert_eq!(sim.stage.bonus_ratio, 0);
    assert_eq!(sim.stats.misses, 2);
}

#[test]
fn scenario_level_completion() {
    let mut sim = sim_with_enemies(Vec::new());
    sim.stage.enemies_to_defeat = 3;
    sim.stage.enemies_defeated = 3;
    sim.stage.enemies_alive = 0;
    assert_eq!(sim.stage.level, 1);
    assert_eq!(sim.stage.spawn_timer.interval_ms, 2000);
    sim.stage.increase_bonus();

    let fx = sim.tick(16);
    assert!(fx.leveled_up);
    assert_eq!(sim.stage.level, 2);
    // max(500, floor(2000 * 0.85)) == 1700
    assert_eq!(sim.stage.spawn_timer.interval_ms, 1700);
    assert_eq!(sim.stage.enemies_defeated, 0);
    assert_eq!(sim.stage.enemies_alive, 0);
    assert_eq!(sim.stage.long_enemies_alive, 0);
    assert_eq!(sim.stage.long_enemies_defeated, 0);
    assert_eq!(sim.stage.bonus_ratio, 0);
    assert_eq!(sim.stage.enemies_to_defeat, 2);
    assert_eq!(sim.mode, GameState::Gameplay);
}

#[test]
fn scenario_interval_floor_on_level_up() {
    let mut stage = StageComponent::new();
    stage.spawn_timer = penguin_typing::stage::SpawnTimer::new(550);
    stage.next_level();
    // floor(550 * 0.85) == 467 falls below the minimum of 500
    assert_eq!(stage.spawn_timer.interval_ms, 500);
}

#[test]
fn scenario_defeat_band_ends_the_run() {
    // the defeat line's centre sits at -3575 tenths; 400 tenths above it
    // is within the half-band of 425
    let close = enemy_with_word(1, "be", 5, 0, -3575 + 400);
    let far = enemy_with_word(2, "long", 5, 0, 3000);
    let mut sim = sim_with_enemies(vec![close, far]);
    let fx = sim.tick(0);
    assert_eq!(sim.mode, GameState::GameOver);
    assert!(!fx.leveled_up);

    // once over, nothing moves any more
    sim.pending_keys.push('b');
    let fx = sim.tick(16);
    assert_eq!(sim.mode, GameState::GameOver);
    assert_eq!(sim.pending_keys.len(), 1);
    assert!(fx.outcome.is_none());
}

#[test]
fn scenario_outside_defeat_band_continues() {
    // 430 tenths above the centre is outside the half-band of 425
    let close = enemy_with_word(1, "be", 5, 0, -3575 + 430);
    let mut sim = sim_with_enemies(vec![close]);
    sim.tick(0);
    assert_eq!(sim.mode, GameState::Gameplay);
}

#[test]
fn roundtrip_three_mismatches_decay_reward_to_72() {
    let mut sim = sim_with_enemies(vec![enemy_with_word(3, "ab", 100, 0, 0)]);
    sim.stage.enemy_born(false);
    sim.locked = Some(3);

    for expected in [90, 81, 72] {
        let out = key_pressed(&mut sim, 'z');
        assert_eq!(out, KeyOutcome::Mismatch);
        assert_eq!(sim.enemies[0].points, expected);
        assert_eq!(sim.stats.combos_count, 0);
    }
    assert_eq!(sim.stats.misses, 3);

    let out = key_pressed(&mut sim, 'a');
    assert_eq!(out, KeyOutcome::Hit);
    let out = key_pressed(&mut sim, 'b');
    assert_eq!(out, KeyOutcome::WordComplete);
    // floor(100 * 0.9^3) == 72, credited with bonus zero
    assert_eq!(sim.score.0, 72);
}

#[test]
fn acquisition_prefers_enemy_nearest_defeat_line() {
    let high = enemy_with_word(1, "not", 5, 0, 2000);
    let low = enemy_with_word(2, "no", 5, 50, -1000);
    let mut sim = sim_with_enemies(vec![high, low]);
    let out = key_pressed(&mut sim, 'n');
    assert_eq!(out, KeyOutcome::Hit);
    assert_eq!(sim.locked, Some(2));
    // the fish aims at the locked enemy's current position
    assert_eq!(sim.projectiles[0].target, 2);
    assert_eq!(sim.projectiles[0].target_x, 50);
    assert_eq!(sim.projectiles[0].target_y, -1000);
    assert_eq!(sim.projectiles[0].y, PENGUIN_THROW_ORIGIN_Y);
}

#[test]
fn mismatch_requires_locked_target() {
    // with no lock and a candidate, the first key both locks and consumes
    let mut sim = sim_with_enemies(vec![enemy_with_word(1, "be", 5, 0, 0)]);
    let out = key_pressed(&mut sim, 'b');
    assert_eq!(out, KeyOutcome::Hit);
    // now a wrong key is a mismatch against the locked target
    let out = key_pressed(&mut sim, 'x');
    assert_eq!(out, KeyOutcome::Mismatch);
    assert_eq!(sim.locked, Some(1));
    assert_eq!(sim.enemies[0].points, 4);
}

#[test]
fn spawn_gate_respects_quota() {
    let mut sim = sim_with_enemies(Vec::new());
    sim.stage.enemies_to_defeat = 1;
    // one full interval elapses: exactly one enemy spawns
    spawn_entity(
        &mut sim.stage,
        &mut sim.enemies,
        &mut sim.next_id,
        &sim.words,
        2000,
        2000,
    );
    assert_eq!(sim.enemies.len(), 1);
    assert!(sim.stage.enemies_alive + sim.stage.enemies_defeated <= sim.stage.enemies_to_defeat);
    let e = &sim.enemies[0];
    assert_eq!(e.y, ENEMY_SPAWN_Y);
    assert_eq!(e.state, EnemyState::Walk);
    assert_eq!(e.life, e.word.len());
    assert!(e.x >= -2048 && e.x <= 2048);
    // at level one only short enemies can spawn
    assert_eq!(e.points, 5);
    assert_eq!(e.velocity, 11);
    assert!(e.genitor.is_none());

    // the quota is covered: no further enemy spawns however long we wait
    spawn_entity(
        &mut sim.stage,
        &mut sim.enemies,
        &mut sim.next_id,
        &sim.words,
        9000,
        5000,
    );
    assert_eq!(sim.enemies.len(), 1);
}

#[test]
fn generator_spawns_child_below_itself() {
    let mut parent = enemy_with_word(1, "longword", 10, 500, 2000);
    parent.genitor = Some(EnemyGenitor {
        enemy_type: EnemyGeneratedType::LittleSpider,
        last_generation: 0,
    });
    let mut sim = sim_with_enemies(vec![parent]);
    sim.stage.enemy_born(true);

    // before the interval elapses nothing happens
    generate_enemy(&mut sim.stage, &mut sim.enemies, &mut sim.next_id, &sim.words, 3999);
    assert_eq!(sim.enemies.len(), 1);

    generate_enemy(&mut sim.stage, &mut sim.enemies, &mut sim.next_id, &sim.words, 4000);
    assert_eq!(sim.enemies.len(), 2);
    let child = &sim.enemies[1];
    assert!(child.generated);
    assert_eq!(child.points, 3);
    assert_eq!(child.velocity, 13);
    assert_eq!(child.x, 500);
    assert_eq!(child.y, 2000 - 640);
    assert!(child.genitor.is_none());
    assert_eq!(sim.stage.enemies_alive, 2);
    assert_eq!(
        sim.enemies[0].genitor.unwrap().last_generation,
        4000,
        "the parent's interval restarts"
    );

    // a defeated child does not count toward the level quota
    sim.locked = Some(sim.enemies[1].id);
    let word: Vec<char> = sim.enemies[1].word.clone();
    for c in word {
        key_pressed(&mut sim, c);
    }
    assert_eq!(sim.stage.enemies_defeated, 0);
    assert_eq!(sim.stage.enemies_alive, 1);
    assert_eq!(sim.stats.combos_count, 1);
}

#[test]
fn walking_enemy_descends_idle_enemy_stays() {
    let mut walker = enemy_with_word(1, "be", 5, 0, 0);
    walker.velocity = 10;
    let mut idler = enemy_with_word(2, "", 5, 0, 1000);
    idler.state = EnemyState::Idle;
    idler.life = 1;
    let mut enemies = vec![walker, idler];
    // 10 * 64 * 6000 / 4500 == 853 tenths of a pixel
    enemy_walk(&mut enemies, 6000);
    assert_eq!(enemies[0].y, -853);
    assert_eq!(enemies[1].y, 1000);
}

#[test]
fn tick_consumes_one_key_per_tick() {
    let mut sim = sim_with_enemies(vec![enemy_with_word(1, "be", 5, 0, 3000)]);
    sim.stage.enemy_born(false);
    sim.push_key('b');
    sim.push_key('e');
    let fx = sim.tick(1);
    assert_eq!(fx.outcome, Some(KeyOutcome::Hit));
    assert_eq!(sim.pending_keys, vec!['e']);
    let fx = sim.tick(1);
    assert_eq!(fx.outcome, Some(KeyOutcome::WordComplete));
    assert!(sim.pending_keys.is_empty());
    assert_eq!(sim.score.0, 5);
}

#[test]
fn tick_does_nothing_outside_gameplay() {
    let mut sim = Simulation::new();
    assert_eq!(sim.mode, GameState::MainMenu);
    sim.push_key('a');
    let fx = sim.tick(100);
    assert!(fx.outcome.is_none());
    assert!(fx.blood.is_empty());
    assert_eq!(sim.elapsed_ms, 0);
    assert_eq!(sim.pending_keys, vec!['a']);

    sim.start_gameplay();
    assert_eq!(sim.mode, GameState::Gameplay);
}

#[test]
fn credit_scales_reward_with_bonus() {
    assert_eq!(credit(100, 0), 100);
    // floor(100 * 1.2) == 120
    assert_eq!(credit(100, 2), 120);
    // floor(5 * 1.2) == 6
    assert_eq!(credit(5, 2), 6);
    // floor(72 * 1.4) == 100
    assert_eq!(credit(72, 4), 100);
}

#[test]
fn projectile_follows_throw_line() {
    let fish = FishThrowed {
        target: 1,
        target_x: 1000,
        target_y: 1000,
        x: 0,
        y: PENGUIN_THROW_ORIGIN_Y,
    };
    let mut enemies = vec![enemy_with_word(1, "be", 5, 100, 1000)];
    let mut fishes = vec![fish];
    // one 60 ms tick climbs 32 * 60 / 3 == 640 tenths
    fish_and_enemy_collision(&mut enemies, &mut fishes, 60);
    assert_eq!(fishes.len(), 1);
    assert_eq!(fishes[0].y, -2240);
    // x == (y - origin) * tx / (ty - origin) == 640 * 1000 / 3880
    assert_eq!(fishes[0].x, 164);
    assert_eq!(enemies[0].life, 2);

    // a dangling fish (target already gone) lands silently
    let stray = FishThrowed { target: 99, target_x: 0, target_y: -2000, x: 0, y: -2100 };
    let mut fishes = vec![stray];
    fish_and_enemy_collision(&mut enemies, &mut fishes, 60);
    assert!(fishes.is_empty());
    assert_eq!(enemies[0].life, 2);
}

#[test]
fn life_saturates_at_zero() {
    let mut e = enemy_with_word(1, "b", 5, 0, 0);
    e.life = 1;
    let mut enemies = vec![e];
    let hits: Vec<FishThrowed> = (0..3)
        .map(|_| FishThrowed { target: 1, target_x: 0, target_y: -2000, x: 0, y: -2100 })
        .collect();
    let mut fishes = hits;
    fish_and_enemy_collision(&mut enemies, &mut fishes, 1000);
    assert!(fishes.is_empty());
    assert_eq!(enemies[0].life, 0);
}

#[test]
fn despawn_clears_lock_on_removed_target() {
    let mut dead = enemy_with_word(1, "", 5, 10, 20);
    dead.state = EnemyState::Idle;
    dead.life = 0;
    let alive = enemy_with_word(2, "be", 5, 0, 0);
    let mut enemies = vec![dead, alive];
    let mut locked = Some(1);
    let blood = despawn_enemies(&mut enemies, &mut locked);
    assert_eq!(enemies.len(), 1);
    assert_eq!(enemies[0].id, 2);
    assert_eq!(locked, None);
    assert_eq!(blood.len(), 1);
    assert_eq!((blood[0].x, blood[0].y), (10, 20));
}

#[test]
fn life_stays_in_step_with_word_and_fish() {
    // through whole ticks, an enemy's life always equals its remaining
    // word length plus the fish still flying at it
    let mut sim = sim_with_enemies(vec![enemy_with_word(1, "should", 5, 800, 3500)]);
    sim.stage.enemy_born(false);
    for c in "should".chars() {
        sim.push_key(c);
    }
    for _ in 0..40 {
        sim.tick(50);
        for e in &sim.enemies {
            let in_flight = sim.projectiles.iter().filter(|p| p.target == e.id).count();
            assert_eq!(e.life, e.word.len() + in_flight);
            assert!(e.life > 0);
        }
    }
}

#[test]
fn high_level_spawns_follow_the_allowed_shapes() {
    // at a high level all three kinds can come out of a spawn decision;
    // whatever the coin flips give, the enemy must have one of the three
    // shapes and the stage's accounting must follow its kind
    for _ in 0..30 {
        let mut sim = sim_with_enemies(Vec::new());
        sim.stage.level = 5;
        sim.stage.enemies_to_defeat = 100;
        spawn_entity(
            &mut sim.stage,
            &mut sim.enemies,
            &mut sim.next_id,
            &sim.words,
            2000,
            2000,
        );
        assert_eq!(sim.enemies.len(), 1);
        let e = &sim.enemies[0];
        assert_eq!(e.life, e.word.len());
        if e.genitor.is_some() {
            // a long-word generator: slower, worth more
            assert_eq!(e.points, 10);
            assert_eq!(e.velocity, 7 + 5);
            assert_eq!(sim.stage.long_enemies_alive, 1);
        } else if e.points == 12 {
            // a special punctuation enemy
            assert_eq!(e.velocity, 7 + 5);
            assert!(e.word.len() >= 3 && e.word.len() <= 6);
            assert_eq!(sim.stage.long_enemies_alive, 0);
        } else {
            // a short-word enemy
            assert_eq!(e.points, 5);
            assert_eq!(e.velocity, 10 + 5);
            assert_eq!(sim.stage.long_enemies_alive, 0);
        }
        assert_eq!(sim.stage.enemies_alive, 1);
    }
}
