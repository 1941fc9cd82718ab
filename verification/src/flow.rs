//! How a game proceeds from battle to battle.

pub mod story;
