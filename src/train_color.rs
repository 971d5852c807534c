//! The colors of train cards, also reachable from the card module.

pub use crate::card::TrainColor;
