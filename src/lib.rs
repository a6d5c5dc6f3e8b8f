//! Session engine for a werewolf party game: role pool, participant
//! lifecycle, phase controller and the role-gated action rules.

pub mod model;
pub mod pool;
pub mod game;
pub mod phase;
pub mod session;
pub mod parse;
pub mod laws;
pub mod access;
