//! The defeat monitor: the fixed band at the bottom of the playfield that
//! ends the run as soon as any enemy comes within half its height of its
//! centre line.

use vstd::prelude::*;
use crate::enemy::{all_enemies_ok, Enemy};

verus! {

/// Height of the defeat band, in tenths of a pixel.
pub const DEFEAT_ZONE_HEIGHT: i64 = 850;
/// Half the band: an enemy within this vertical distance of the centre
/// line ends the run.
pub const DEFEAT_ZONE_HALF: i64 = 425;
/// Vertical position of the band's centre line: the band rests on the
/// bottom edge of the playfield.
pub const DEFEAT_LINE_Y: i64 = -3575;

/// Whether this enemy stands within the defeat band.
pub open spec fn in_defeat_band(e: Enemy) -> bool {
    -DEFEAT_ZONE_HALF <= e.y - DEFEAT_LINE_Y <= DEFEAT_ZONE_HALF
}

/// The per-tick defeat check: true exactly when some enemy, whatever its
/// state, stands within half the band's height of the defeat line.
pub fn gameover(enemies: &Vec<Enemy>) -> (r: bool)
    requires
        all_enemies_ok(enemies@),
    ensures
        r == exists|i: int| 0 <= i < enemies@.len() && in_defeat_band(#[trigger] enemies@[i]),
{
    let n = enemies.len();
    let mut i: usize = 0;
    while i < n
        invariant
            i <= n,
            n == enemies@.len(),
            all_enemies_ok(enemies@),
            forall|j: int| 0 <= j < i ==> !in_defeat_band(#[trigger] enemies@[j]),
        decreases n - i,
    {
        let offset = enemies[i].y - DEFEAT_LINE_Y;
        if -DEFEAT_ZONE_HALF <= offset && offset <= DEFEAT_ZONE_HALF {
            return true;
        }
        i += 1;
    }
    false
}

} // verus!
