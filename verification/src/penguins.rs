//! The projectile system: fish thrown by the penguin at the locked enemy.
//! A projectile captures the target's position at the moment the matching
//! keystroke was accepted, climbs at a fixed speed along the straight line
//! from the throw origin to that captured position, and on arrival takes
//! one life from the target if it still exists.

use vstd::prelude::*;
use crate::enemy::{
    all_enemies_ok, enemy_ok, find_enemy, ids_unique, Enemy, ENEMY_SPAWN_Y, FLOOR_Y, MAX_TICK_MS,
    SPAWN_X_LIMIT,
};

verus! {

/// Vertical position the penguin throws from: a little under two tiles up
/// from the bottom edge of the playfield.
pub const PENGUIN_THROW_ORIGIN_Y: i64 = -2880;
/// A projectile climbs `FISH_SPEED_NUM * delta_ms / FISH_SPEED_DEN` tenths
/// of a pixel per tick.
pub const FISH_SPEED_NUM: u64 = 32;
/// See `FISH_SPEED_NUM`.
pub const FISH_SPEED_DEN: u64 = 3;

/// One fish in flight.  `target` is the id of the enemy it was thrown at
/// (it may no longer exist when the fish arrives); `target_x`/`target_y`
/// are the position captured at the throw.
#[derive(Clone, Copy, Debug, PartialEq, Eq, Structural)]
pub struct FishThrowed {
    pub target: u64,
    pub target_x: i64,
    pub target_y: i64,
    pub x: i64,
    pub y: i64,
}

/// The geometric facts every fish of a well-formed flight satisfies.
pub open spec fn fish_ok(p: FishThrowed) -> bool {
    &&& -SPAWN_X_LIMIT <= p.target_x <= SPAWN_X_LIMIT
    &&& FLOOR_Y <= p.target_y <= ENEMY_SPAWN_Y
    &&& PENGUIN_THROW_ORIGIN_Y <= p.y <= ENEMY_SPAWN_Y
}

pub open spec fn all_fish_ok(ps: Seq<FishThrowed>) -> bool {
    forall|i: int| 0 <= i < ps.len() ==> fish_ok(#[trigger] ps[i])
}

/// How far a fish climbs in one tick.
pub open spec fn fish_step(delta_ms: u64) -> int {
    FISH_SPEED_NUM * delta_ms / (FISH_SPEED_DEN as int)
}

/// Whether this fish reaches (or passes) its captured target height within
/// the tick.
pub open spec fn fish_hits(p: FishThrowed, delta_ms: u64) -> bool {
    p.y + fish_step(delta_ms) >= p.target_y
}

/// The horizontal position of the straight throw line at height `y`: the
/// line runs from the origin to the captured target point.  A target at or
/// below the origin gives no usable slope; the fish then sits at the
/// target's horizontal position (such a fish arrives at once anyway).
pub open spec fn traj_x(y: int, tx: i64, ty: i64) -> int {
    if ty <= PENGUIN_THROW_ORIGIN_Y {
        tx as int
    } else {
        let mag = (y - PENGUIN_THROW_ORIGIN_Y) * (
        if tx >= 0 {
            tx as int
        } else {
            -(tx as int)
        }) / (ty - PENGUIN_THROW_ORIGIN_Y);
        if tx >= 0 {
            mag
        } else {
            -mag
        }
    }
}

/// A fish after one tick of flight, still short of its target height.
pub open spec fn advanced_fish(p: FishThrowed, delta_ms: u64) -> FishThrowed {
    let ny = p.y + fish_step(delta_ms);
    FishThrowed { y: ny as i64, x: traj_x(ny, p.target_x, p.target_y) as i64, ..p }
}

/// The fish still in flight after one tick: those that reach their target
/// height leave the flight, the rest advance along their line.
pub open spec fn kept_fish(ps: Seq<FishThrowed>, delta_ms: u64) -> Seq<FishThrowed>
    decreases ps.len(),
{
    if ps.len() == 0 {
        Seq::<FishThrowed>::empty()
    } else {
        let rest = kept_fish(ps.drop_first(), delta_ms);
        if fish_hits(ps.first(), delta_ms) {
            rest
        } else {
            seq![advanced_fish(ps.first(), delta_ms)] + rest
        }
    }
}

/// How many fish of the flight arrive at the enemy with this id within the
/// tick.
pub open spec fn hits_on(ps: Seq<FishThrowed>, delta_ms: u64, id: u64) -> nat
    decreases ps.len(),
{
    if ps.len() == 0 {
        0
    } else {
        (if fish_hits(ps.first(), delta_ms) && ps.first().target == id {
            1nat
        } else {
            0nat
        }) + hits_on(ps.drop_first(), delta_ms, id)
    }
}

/// How many fish of the flight are aimed at the enemy with this id.
pub open spec fn count_targeting(ps: Seq<FishThrowed>, id: u64) -> nat
    decreases ps.len(),
{
    if ps.len() == 0 {
        0
    } else {
        (if ps.first().target == id {
            1nat
        } else {
            0nat
        }) + count_targeting(ps.drop_first(), id)
    }
}

pub proof fn lemma_count_targeting_push(ps: Seq<FishThrowed>, p: FishThrowed, id: u64)
    ensures
        count_targeting(ps.push(p), id) == count_targeting(ps, id) + (
        if p.target == id {
            1nat
        } else {
            0nat
        }),
    decreases ps.len(),
{
    if ps.len() == 0 {
        assert(ps.push(p).first() == p);
        assert(ps.push(p).drop_first() =~= Seq::<FishThrowed>::empty());
        assert(count_targeting(ps.push(p).drop_first(), id) == 0);
    } else {
        assert(ps.push(p).first() == ps.first());
        assert(ps.push(p).drop_first() =~= ps.drop_first().push(p));
        lemma_count_targeting_push(ps.drop_first(), p, id);
    }
}

/// A flight in which no fish is aimed at this id counts zero for it.
pub proof fn lemma_count_targeting_none(ps: Seq<FishThrowed>, id: u64)
    requires
        forall|k: int| 0 <= k < ps.len() ==> (#[trigger] ps[k]).target != id,
    ensures
        count_targeting(ps, id) == 0,
    decreases ps.len(),
{
    if ps.len() > 0 {
        assert(ps.first() == ps[0]);
        assert forall|k: int| 0 <= k < ps.drop_first().len() implies (
        #[trigger] ps.drop_first()[k]).target != id by {
            assert(ps.drop_first()[k] == ps[k + 1]);
        }
        lemma_count_targeting_none(ps.drop_first(), id);
    }
}

/// Over one tick, the fish aimed at an enemy either land on it or stay in
/// flight: the landing count and the remaining count add up to the old one.
pub proof fn lemma_fish_accounting(ps: Seq<FishThrowed>, delta_ms: u64, id: u64)
    ensures
        hits_on(ps, delta_ms, id) <= count_targeting(ps, id),
        count_targeting(kept_fish(ps, delta_ms), id) + hits_on(ps, delta_ms, id)
            == count_targeting(ps, id),
    decreases ps.len(),
{
    if ps.len() > 0 {
        lemma_fish_accounting(ps.drop_first(), delta_ms, id);
        if !fish_hits(ps.first(), delta_ms) {
            let rest = kept_fish(ps.drop_first(), delta_ms);
            let adv = advanced_fish(ps.first(), delta_ms);
            assert(kept_fish(ps, delta_ms) =~= seq![adv] + rest);
            assert((seq![adv] + rest).drop_first() =~= rest);
            assert((seq![adv] + rest).first() == adv);
            assert(adv.target == ps.first().target);
        }
    }
}

/// A fish that stays in flight keeps its target: a bound on the targets of
/// the flight survives the tick.
pub proof fn lemma_kept_fish_targets(ps: Seq<FishThrowed>, delta_ms: u64, bound: u64)
    requires
        forall|k: int| 0 <= k < ps.len() ==> (#[trigger] ps[k]).target < bound,
    ensures
        forall|k: int|
            0 <= k < kept_fish(ps, delta_ms).len() ==> (#[trigger] kept_fish(
                ps,
                delta_ms,
            )[k]).target < bound,
    decreases ps.len(),
{
    if ps.len() > 0 {
        assert(ps.first() == ps[0]);
        assert forall|k: int| 0 <= k < ps.drop_first().len() implies (
        #[trigger] ps.drop_first()[k]).target < bound by {
            assert(ps.drop_first()[k] == ps[k + 1]);
        }
        lemma_kept_fish_targets(ps.drop_first(), delta_ms, bound);
        let rest = kept_fish(ps.drop_first(), delta_ms);
        if !fish_hits(ps.first(), delta_ms) {
            let adv = advanced_fish(ps.first(), delta_ms);
            assert forall|k: int| 0 <= k < (seq![adv] + rest).len() implies (#[trigger] (seq![adv]
                + rest)[k]).target < bound by {
                if k > 0 {
                    assert((seq![adv] + rest)[k] == rest[k - 1]);
                }
            }
        }
    }
}

/// An enemy after taking `h` hits: its life falls by `h`, saturating at
/// zero, and nothing else changes.
pub open spec fn hit_enemy(e: Enemy, h: nat) -> Enemy {
    Enemy {
        life: if h <= e.life {
            (e.life - h) as usize
        } else {
            0
        },
        ..e
    }
}

pub proof fn lemma_kept_fish_push(ps: Seq<FishThrowed>, p: FishThrowed, delta_ms: u64)
    ensures
        kept_fish(ps.push(p), delta_ms) == kept_fish(ps, delta_ms) + (
        if fish_hits(p, delta_ms) {
            Seq::<FishThrowed>::empty()
        } else {
            seq![advanced_fish(p, delta_ms)]
        }),
    decreases ps.len(),
{
    let tail = if fish_hits(p, delta_ms) {
        Seq::<FishThrowed>::empty()
    } else {
        seq![advanced_fish(p, delta_ms)]
    };
    if ps.len() == 0 {
        assert(ps.push(p).first() == p);
        assert(ps.push(p).drop_first() =~= Seq::<FishThrowed>::empty());
        assert(kept_fish(ps.push(p).drop_first(), delta_ms) =~= Seq::<FishThrowed>::empty());
        assert(kept_fish(ps.push(p), delta_ms) =~= kept_fish(ps, delta_ms) + tail);
    } else {
        assert(ps.push(p).first() == ps.first());
        assert(ps.push(p).drop_first() =~= ps.drop_first().push(p));
        lemma_kept_fish_push(ps.drop_first(), p, delta_ms);
        assert(kept_fish(ps.push(p), delta_ms) =~= kept_fish(ps, delta_ms) + tail);
    }
}

pub proof fn lemma_hits_on_push(ps: Seq<FishThrowed>, p: FishThrowed, delta_ms: u64, id: u64)
    ensures
        hits_on(ps.push(p), delta_ms, id) == hits_on(ps, delta_ms, id) + (
        if fish_hits(p, delta_ms) && p.target == id {
            1nat
        } else {
            0nat
        }),
    decreases ps.len(),
{
    if ps.len() == 0 {
        assert(ps.push(p).first() == p);
        assert(ps.push(p).drop_first() =~= Seq::<FishThrowed>::empty());
        assert(hits_on(ps.push(p).drop_first(), delta_ms, id) == 0);
    } else {
        assert(ps.push(p).first() == ps.first());
        assert(ps.push(p).drop_first() =~= ps.drop_first().push(p));
        lemma_hits_on_push(ps.drop_first(), p, delta_ms, id);
    }
}


/// The whole effect of the projectile phase: the fish still in flight are
/// exactly `kept_fish` of the old flight, and every enemy's life falls by
/// the number of fish that landed on it, saturating at zero.
pub open spec fn collision_step(
    es0: Seq<Enemy>,
    ps0: Seq<FishThrowed>,
    es1: Seq<Enemy>,
    ps1: Seq<FishThrowed>,
    delta_ms: u64,
) -> bool {
    &&& ps1 == kept_fish(ps0, delta_ms)
    &&& es1.len() == es0.len()
    &&& (forall|j: int|
        0 <= j < es0.len() ==> es1[j] == hit_enemy(es0[j], hits_on(ps0, delta_ms, es0[j].id)))
}

/// Projectile phase: every fish climbs one tick's worth along its line;
/// each fish that reaches its captured target height leaves the flight and,
/// if its target enemy still exists, takes one life from it (saturating at
/// zero); a fish whose target is gone is dropped silently.
pub fn fish_and_enemy_collision(
    enemies: &mut Vec<Enemy>,
    projectiles: &mut Vec<FishThrowed>,
    delta_ms: u64,
)
    requires
        delta_ms <= MAX_TICK_MS,
        all_enemies_ok(old(enemies)@),
        all_fish_ok(old(projectiles)@),
        ids_unique(old(enemies)@),
    ensures
        collision_step(
            old(enemies)@,
            old(projectiles)@,
            final(enemies)@,
            final(projectiles)@,
            delta_ms,
        ),
        all_enemies_ok(final(enemies)@),
        all_fish_ok(final(projectiles)@),
        ids_unique(final(enemies)@),
{
    let ghost orig_ps = projectiles@;
    let ghost orig_es = enemies@;
    let n = projectiles.len();
    let mut kept: Vec<FishThrowed> = Vec::new();
    let mut i: usize = 0;
    while i < n
        invariant
            i <= n,
            n == orig_ps.len(),
            projectiles@ == orig_ps,
            delta_ms <= MAX_TICK_MS,
            all_fish_ok(orig_ps),
            all_enemies_ok(orig_es),
            ids_unique(orig_es),
            kept@ == kept_fish(orig_ps.take(i as int), delta_ms),
            all_fish_ok(kept@),
            enemies@.len() == orig_es.len(),
            forall|j: int|
                0 <= j < orig_es.len() ==> enemies@[j] == hit_enemy(
                    orig_es[j],
                    hits_on(orig_ps.take(i as int), delta_ms, orig_es[j].id),
                ),
        decreases n - i,
    {
        let p = projectiles[i];
        proof {
            assert(orig_ps.take(i + 1) =~= orig_ps.take(i as int).push(p));
            lemma_kept_fish_push(orig_ps.take(i as int), p, delta_ms);
            assert forall|id: u64|
                hits_on(orig_ps.take(i + 1), delta_ms, id) == hits_on(
                    orig_ps.take(i as int),
                    delta_ms,
                    id,
                ) + (if fish_hits(p, delta_ms) && p.target == id {
                    1nat
                } else {
                    0nat
                }) by {
                lemma_hits_on_push(orig_ps.take(i as int), p, delta_ms, id);
            }
        }
        let step = ((FISH_SPEED_NUM * delta_ms) / FISH_SPEED_DEN) as i64;
        let ny = p.y + step;
        if ny >= p.target_y {
            match find_enemy(enemies, p.target) {
                Some(k) => {
                    let e = &mut enemies[k];
                    e.life = if e.life > 0 {
                        e.life - 1
                    } else {
                        0
                    };
                },
                None => {},
            }
        } else {
            let dy: u64 = (ny - PENGUIN_THROW_ORIGIN_Y) as u64;
            let den: u64 = (p.target_y - PENGUIN_THROW_ORIGIN_Y) as u64;
            let mag: u64 = if p.target_x >= 0 {
                p.target_x as u64
            } else {
                (-p.target_x) as u64
            };
            assert(dy * mag <= 650000u64 * 2048) by (nonlinear_arith)
                requires
                    dy <= 650000u64,
                    mag <= 2048u64,
            ;
            let q = (dy * mag / den) as i64;
            assert(q == (ny - PENGUIN_THROW_ORIGIN_Y) * (mag as int) / (p.target_y
                - PENGUIN_THROW_ORIGIN_Y));
            let nx = if p.target_x >= 0 {
                q
            } else {
                -q
            };
            kept.push(FishThrowed { x: nx, y: ny, ..p });
        }
        i += 1;
    }
    proof {
        assert(orig_ps.take(n as int) =~= orig_ps);
    }
    *projectiles = kept;
}

} // verus!
