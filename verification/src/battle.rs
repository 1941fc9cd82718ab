//! Combat: the numbers that describe a combatant and the behaviour trees
//! that drive it.

pub mod bt;
pub mod laws;
pub mod loot;
pub mod nodes;
pub mod runner;
pub mod stats;
pub mod tree;
