//! What is kept of a game to share it: the armies that the player fielded.

use crate::summoner::placement::{on_board, SummonedMinions};
use vstd::prelude::*;

verus! {

/// The armies that the player fielded, battle by battle.
pub struct SaveData {
    pub armies: Vec<SummonedMinions>,
}

impl Default for SaveData {
    fn default() -> (save: SaveData)
        ensures
            save.armies@.len() == 0,
    {
        SaveData { armies: Vec::new() }
    }
}

impl SaveData {
    /// Whether every summon of every army stands on the board.
    pub open spec fn all_on_board(&self) -> bool {
        forall|i: int, cell: (usize, usize)|
            0 <= i < self.armies@.len() && (#[trigger] self.armies@[i])@.spawn_locations.contains_key(
                cell,
            ) ==> #[trigger] on_board(cell)
    }

    /// Whether every summon of every army stands on the board.
    pub fn fits_board(&self) -> (fits: bool)
        ensures
            fits == self.all_on_board(),
    {
        let mut i: usize = 0;
        while i < self.armies.len()
            invariant
                i <= self.armies.len(),
                forall|j: int, cell: (usize, usize)|
                    0 <= j < i && (#[trigger] self.armies@[j])@.spawn_locations.contains_key(cell)
                        ==> #[trigger] on_board(cell),
            decreases self.armies.len() - i,
        {
            if !self.armies[i].fits_board() {
                return false;
            }
            i += 1;
        }
        true
    }
}

} // verus!
