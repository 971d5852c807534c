//! The game-logic core of a train-route board game: cards and the card dealer, the route
//! map, players and the manager that runs a game through its phases.

pub mod card;
pub mod city;
pub mod game_phase;
pub mod manager;
pub mod map;
pub mod player;
pub mod request_types;
pub mod response_types;
pub mod text;
pub mod train_color;
