//! The phases of a game, also reachable from the manager module.

pub use crate::manager::GamePhase;
