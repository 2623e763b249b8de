//! Running tallies of what the player has done.
use vstd::prelude::*;

verus! {

/// Counts shown on the game-over screen.
#[derive(Debug, Clone, Copy, Default)]
pub struct PlayerStats {
    pub enemies_defeated: u32,
    pub items_collected: u32,
}

} // verus!
