//! The summoner's side of the game: the mana to spend, the summons that
//! are known, and where summons are placed.

pub mod book;
pub mod mana;
pub mod placement;
