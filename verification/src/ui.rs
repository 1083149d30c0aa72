//! What the heads-up display shows of the core: the phase of the game and
//! the filled part of a health bar.
use vstd::prelude::*;

verus! {

/// Phase of a game.  `GameOver` and `Victory` are final.
#[derive(Clone, Copy, Debug, PartialEq, Eq, Structural)]
pub enum GameState {
    Playing,
    GameOver,
    Victory,
}

pub struct UI;

impl UI {
    /// Filled length of a health bar `bar_width` long: the share
    /// `health / max_health` of it, no less than nothing and no more than
    /// all of it, rounded down.
    pub open spec fn bar_fill(health: int, max_health: int, bar_width: int) -> int {
        if max_health <= 0 || health <= 0 {
            0
        } else if health >= max_health {
            bar_width
        } else {
            (health * bar_width) / max_health
        }
    }

    pub fn health_bar_fill(health: i32, max_health: i32, bar_width: u32) -> (fill: u32)
        ensures
            fill == UI::bar_fill(health as int, max_health as int, bar_width as int),
            fill <= bar_width,
    {
        if max_health <= 0 || health <= 0 {
            0
        } else if health >= max_health {
            bar_width
        } else {
            let h: u64 = health as u64;
            let m: u64 = max_health as u64;
            let w: u64 = bar_width as u64;
            assert(h * w <= 0x7fff_ffff * 0xffff_ffff) by (nonlinear_arith)
                requires
                    0 <= h <= 0x7fff_ffff,
                    0 <= w <= 0xffff_ffff,
            ;
            assert((h * w) / (m as int) <= w) by (nonlinear_arith)
                requires
                    0 <= h < m,
                    0 <= w,
            ;
            ((h * w) / m) as u32
        }
    }
}

} // verus!
