//! The bodies of the requests that players send for their actions.

use crate::card::TrainColor;
use crate::city::CityToCity;
use crate::player::PlayerColor;
use vstd::prelude::*;

verus! {

/// A request to change the player's name.
#[derive(Debug, PartialEq)]
pub struct ChangeNameRequest {
    pub new_name: String,
}

/// A request to change the player's color.
#[derive(Debug, PartialEq)]
pub struct ChangeColorRequest {
    pub new_color: PlayerColor,
}

/// A request to mark the player as ready, or not.
#[derive(Debug, PartialEq)]
pub struct SetPlayerReadyRequest {
    pub is_ready: bool,
}

/// A request to keep some of the pending destination cards, one decision per card.
#[derive(Debug, PartialEq)]
pub struct SelectDestinationCardsRequest {
    pub destination_cards_decisions: Vec<bool>,
}

/// A request to draw the open train card at an index.
#[derive(Debug, PartialEq)]
pub struct DrawOpenTrainCardRequest {
    pub card_index: usize,
}

/// A request to claim a route with the given cards.
#[derive(Debug, PartialEq)]
pub struct ClaimRouteRequest {
    pub route: CityToCity,
    pub parallel_route_index: usize,
    pub cards: Vec<TrainColor>,
}

} // verus!
