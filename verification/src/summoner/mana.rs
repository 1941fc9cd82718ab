//! The summoner's mana.

use crate::battle::stats::fits_i32;
use vstd::prelude::*;

verus! {

/// The mana a summoner has and the mana spent on the summons placed.
#[derive(Clone, Copy, Debug, PartialEq, Eq, Structural)]
pub struct Mana {
    pub max_mana: i32,
    pub used_mana: i32,
}

impl Default for Mana {
    fn default() -> (mana: Mana)
        ensures
            mana == (Mana { max_mana: 2, used_mana: 0 }),
    {
        Mana { max_mana: 2, used_mana: 0 }
    }
}

impl Mana {
    /// Takes the mana gained after a battle: a gain raises the most that
    /// the summoner can have; a loss, or none, changes nothing.
    pub fn gain(&mut self, gained: i32)
        requires
            gained > 0 ==> fits_i32(old(self).max_mana + gained),
        ensures
            final(self).used_mana == old(self).used_mana,
            final(self).max_mana == if gained > 0 {
                old(self).max_mana + gained
            } else {
                old(self).max_mana as int
            },
    {
        if gained > 0 {
            self.max_mana = self.max_mana + gained;
        }
    }

    /// Records the mana spent on the summons placed.
    pub fn tally(&mut self, used_mana: i32)
        ensures
            *final(self) == (Mana { used_mana, ..*old(self) }),
    {
        self.used_mana = used_mana;
    }

    /// The mana not yet spent.
    pub fn mana_left(&self) -> (left: i32)
        requires
            fits_i32(self.max_mana - self.used_mana),
        ensures
            left == self.max_mana - self.used_mana,
    {
        self.max_mana - self.used_mana
    }
}

} // verus!
