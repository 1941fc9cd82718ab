//! The rules of a summoning board game: what a summon is, how an army is
//! laid out on the board, how a battle's story advances, and the behaviour
//! trees that decide what each combatant does on its turn.
//!
//! Rendering, input and asset handling live outside this crate; everything
//! here works on plain values. The rules are verified. What they take on
//! trust from outside is kept in three small modules: random choices in
//! [`chance`], hash maps in [`tables`], and numbers written out in
//! [`text`].

pub mod battle;
pub mod board;
pub mod chance;
pub mod flow;
pub mod geometry;
pub mod persistence;
pub mod summoner;
pub mod summons;
pub mod tables;
pub mod text;
