use ticket_to_ride::card::{TrainColor, NUM_DRAWN_DESTINATION_CARDS};
use ticket_to_ride::city::City;
use ticket_to_ride::manager::{GamePhase, Manager, MAX_PLAYERS};
use ticket_to_ride::map::ClaimedRoute;
use ticket_to_ride::player::PlayerColor;
use ticket_to_ride::response_types::ActionResponse;

#[test]
fn manager_new() {
    let m = Manager::new();

    assert_eq!(m.phase, GamePhase::InLobby);
    assert!(m.turn.is_none());
    assert!(m.map.is_none());
    assert!(m.card_dealer.is_none());
    assert!(m.players.is_empty());
    assert_eq!(m.num_players_selected_initial_destination_cards, 0);
}

#[test]
fn manager_add_player_outside_of_in_lobby_phase() {
    let mut m = Manager::new();

    m.phase = GamePhase::Starting;
    assert!(m.add_player().is_none());

    m.phase = GamePhase::Playing;
    assert!(m.add_player().is_none());

    assert!(m.players.is_empty());

    m.phase = GamePhase::InLobby;
    let player_id = m.add_player();
    assert!(player_id.is_some());
    let player_id = player_id.unwrap();

    let game_state = m.get_state(player_id);
    assert_eq!(game_state.phase, GamePhase::InLobby);
    assert!(game_state.turn.is_none());
    assert!(game_state.card_dealer_state.is_none());
    assert_eq!(game_state.players_state.len(), 1);
}

#[test]
fn manager_add_player_unique() {
    let mut m = Manager::new();

    assert_eq!(m.add_player(), Some(0));
    assert_eq!(m.add_player(), Some(1));
    assert_eq!(m.add_player(), Some(2));
    assert_eq!(m.add_player(), Some(3));
    assert_eq!(m.add_player(), Some(4));
    assert!(m.add_player().is_none());
    assert_eq!(m.num_players(), 5);

    for (i, player) in m.players.iter().enumerate() {
        for (j, other_player) in m.players.iter().enumerate() {
            if i == j {
                continue;
            }

            assert_ne!(player.color(), other_player.color());
            assert_ne!(player.name(), other_player.name());
            assert_ne!(player.id(), other_player.id());
        }
    }

    let game_state = m.get_state(0);
    assert_eq!(game_state.players_state.len(), MAX_PLAYERS);
}

#[test]
fn manager_add_player_name_collision() {
    let mut m = Manager::new();

    for i in 1..=4 {
        assert_eq!(m.add_player(), Some(i - 1));
        m.players[i - 1].change_name(format!("Player {:01$}", 4, i));
    }

    assert_eq!(m.add_player(), Some(4));
    assert_eq!(m.num_players(), 5);
    assert_eq!(m.players[4].name(), "Player 00004");
}

#[test]
fn manager_default_names_and_colors() {
    let mut m = Manager::new();
    m.add_player();
    m.add_player();
    assert_eq!(m.players[0].name(), "Player 0");
    assert_eq!(m.players[1].name(), "Player 1");
    assert_eq!(m.players[0].color(), PlayerColor::Black);
    assert_eq!(m.players[1].color(), PlayerColor::Blue);
}

#[test]
fn manager_change_player_name() {
    let mut m = Manager::new();

    let player_id = m.add_player().unwrap();
    let other_player_id = m.add_player().unwrap();

    let new_name = String::from("Bob");
    assert!(m.change_player_name(player_id, new_name.clone()).is_ok());
    assert_eq!(m.players[0].name(), new_name.clone());

    assert!(m.change_player_name(player_id, new_name.clone()).is_err());
    assert_eq!(
        m.change_player_name(other_player_id, new_name.clone()),
        Err(String::from("Cannot change name to already existing `Bob`."))
    );
    assert_ne!(m.players[1].name(), new_name);
}

#[test]
fn manager_change_player_name_wrong_phase() {
    let mut m = Manager::new();

    let player_id = m.add_player().unwrap();
    let other_player_id = m.add_player().unwrap();

    m.phase = GamePhase::Playing;

    let new_name = String::from("Bob");
    assert!(m.change_player_name(player_id, new_name.clone()).is_err());
    assert_eq!(
        m.change_player_name(other_player_id, new_name),
        Err(String::from("Cannot change player's name outside of the lobby phase."))
    );
}

#[test]
fn manager_change_player_color() {
    let mut m = Manager::new();

    let player_id = m.add_player().unwrap();
    let other_player_id = m.add_player().unwrap();

    let new_color = PlayerColor::Yellow;
    assert!(m.change_player_color(player_id, new_color).is_ok());
    assert_eq!(m.players[0].color(), new_color);

    assert!(m.change_player_color(player_id, new_color).is_err());
    assert_eq!(
        m.change_player_color(other_player_id, new_color),
        Err(String::from("Cannot change color to `yellow`, as it is already used."))
    );
    assert_ne!(m.players[1].color(), new_color);
}

#[test]
fn manager_change_player_color_wrong_phase() {
    let mut m = Manager::new();

    let player_id = m.add_player().unwrap();
    let other_player_id = m.add_player().unwrap();

    m.phase = GamePhase::Playing;

    let new_color = PlayerColor::Yellow;
    assert!(m.change_player_color(player_id, new_color).is_err());
    assert_eq!(
        m.change_player_color(other_player_id, new_color),
        Err(String::from("Cannot change player's color outside of the lobby phase."))
    );
}

#[test]
fn manager_unknown_player() {
    let mut m = Manager::new();
    m.add_player().unwrap();
    assert_eq!(m.set_ready(3, true), Err(String::from("Unknown player.")));
    assert_eq!(m.change_player_name(3, String::from("Bob")), Err(String::from("Unknown player.")));
}

#[test]
fn manager_set_ready() {
    let mut m = Manager::new();

    let player_id = m.add_player().unwrap();
    let other_player_id = m.add_player().unwrap();

    assert!(m.set_ready(player_id, true).is_ok());
    assert_eq!(m.phase, GamePhase::InLobby);
    assert!(m.players[0].ready());

    assert!(m.set_ready(player_id, false).is_ok());
    assert_eq!(m.phase, GamePhase::InLobby);
    assert_eq!(m.players[0].ready(), false);

    assert!(m.set_ready(other_player_id, true).is_ok());
    assert_eq!(m.phase, GamePhase::InLobby);
    assert!(m.players[1].ready());

    assert!(m.set_ready(player_id, true).is_ok());
    assert_eq!(m.phase, GamePhase::Starting);
    assert!(m.players[0].ready());

    assert!(m.turn.is_none());
    assert!(m.map.is_some());
    assert!(m.card_dealer.is_some());

    let game_state = m.get_state(player_id);
    assert_eq!(game_state.phase, GamePhase::Starting);
    assert!(game_state.turn.is_none());
    assert!(game_state.card_dealer_state.is_some());
    assert_eq!(game_state.players_state.len(), 2);
    assert_ne!(
        game_state.players_state[0].public_player_state,
        game_state.players_state[1].public_player_state
    );
}

#[test]
fn manager_set_ready_wrong_phase() {
    let mut m = Manager::new();

    let player_id = m.add_player().unwrap();
    let other_player_id = m.add_player().unwrap();

    m.phase = GamePhase::Playing;

    assert!(m.set_ready(player_id, false).is_err());
    assert_eq!(
        m.set_ready(other_player_id, false),
        Err(String::from("Cannot change ready status outside of the lobby phase."))
    );
}

#[test]
fn manager_select_destination_cards() {
    let mut m = Manager::new();

    let player_id = m.add_player().unwrap();
    let other_player_id = m.add_player().unwrap();

    let destination_cards_decisions = vec![true, false, true];
    assert!(m
        .select_destination_cards(player_id, destination_cards_decisions.clone())
        .is_err());

    assert!(m.set_ready(player_id, true).is_ok());
    assert!(m.set_ready(other_player_id, true).is_ok());

    for player in &m.players {
        assert_eq!(
            player.get_private_state().pending_destination_cards.len(),
            NUM_DRAWN_DESTINATION_CARDS
        );
        assert!(player.get_private_state().selected_destination_cards.is_empty());
    }

    // Invalid selection, because at least two cards must be selected when we start the game.
    assert!(m.select_destination_cards(player_id, vec![true, false, false]).is_err());

    assert!(m
        .select_destination_cards(player_id, destination_cards_decisions.clone())
        .is_ok());
    assert_eq!(m.phase, GamePhase::Starting);
    assert!(m.turn.is_none());

    let player_index = m.get_player_index(player_id).unwrap();
    assert!(m.players[player_index]
        .get_private_state()
        .pending_destination_cards
        .is_empty());
    assert_eq!(
        m.players[player_index]
            .get_private_state()
            .selected_destination_cards
            .len(),
        2
    );

    // Same player can't select cards again in the same turn.
    assert!(m
        .select_destination_cards(player_id, destination_cards_decisions.clone())
        .is_err());

    assert!(m
        .select_destination_cards(other_player_id, destination_cards_decisions)
        .is_ok());
    assert_eq!(m.phase, GamePhase::Playing);
    assert_eq!(m.turn, Some(0));

    let (player_id_first, player_id_second) = if m.get_player_index(player_id) == Some(0) {
        (player_id, other_player_id)
    } else {
        (other_player_id, player_id)
    };

    assert!(m.draw_destination_cards(player_id_first).is_ok());

    assert_eq!(m.turn, Some(0));

    let destination_cards_decisions = vec![true, false, false];
    let invalid_destination_cards_decisions = vec![false, false, false];
    // Wrong turn.
    assert!(m
        .select_destination_cards(player_id_second, destination_cards_decisions.clone())
        .is_err());
    // Invalid selection, because at least one card during the turn-based game.
    assert!(m
        .select_destination_cards(player_id_first, invalid_destination_cards_decisions)
        .is_err());

    assert!(m
        .select_destination_cards(player_id_first, destination_cards_decisions)
        .is_ok());

    assert_eq!(m.turn, Some(1));
}

#[test]
fn manager_select_destination_cards_game_done() {
    let mut m = Manager::new();

    let player_id = m.add_player().unwrap();
    m.add_player().unwrap();

    m.phase = GamePhase::Done;

    assert_eq!(
        m.select_destination_cards(player_id, vec![true, false, true]),
        Err(String::from("Cannot play if the game has not started, or if it has ended."))
    );
}

#[test]
fn manager_select_destination_cards_last_turn() {
    let mut m = Manager::new();

    let player_id = m.add_player().unwrap();
    let other_player_id = m.add_player().unwrap();

    assert!(m.set_ready(player_id, true).is_ok());
    assert!(m.set_ready(other_player_id, true).is_ok());

    m.phase = GamePhase::LastTurn;
    m.turn = Some(40);

    let (player_id_first, player_id_second) = if m.get_player_index(player_id) == Some(0) {
        (player_id, other_player_id)
    } else {
        (other_player_id, player_id)
    };

    m.players[0].get_mut_public_state().claimed_routes = vec![ClaimedRoute {
        route: (City::LosAngeles, City::SanFrancisco),
        parallel_route_index: 0,
        length: 3,
    }];

    assert_eq!(m.players[0].get_public_state().is_done_playing, false);
    assert!(m.players[0].get_public_state().has_longest_route.is_none());
    assert_eq!(m.players[1].get_public_state().is_done_playing, false);
    assert!(m.players[1].get_public_state().has_longest_route.is_none());

    assert!(m.draw_destination_cards(player_id_first).is_ok());
    assert!(m
        .select_destination_cards(player_id_first, vec![true, false, true])
        .is_ok());

    assert_eq!(m.turn, Some(41));
    assert!(m.players[0].get_public_state().is_done_playing);
    assert!(m.players[0].get_public_state().has_longest_route.is_none());
    assert_eq!(m.players[1].get_public_state().is_done_playing, false);
    assert!(m.players[1].get_public_state().has_longest_route.is_none());

    assert!(m.draw_destination_cards(player_id_second).is_ok());
    assert!(m
        .select_destination_cards(player_id_second, vec![true, false, true])
        .is_ok());

    assert_eq!(m.turn, Some(42));
    assert_eq!(m.phase, GamePhase::Done);
    assert!(m.players[0].get_public_state().is_done_playing);
    assert_eq!(m.players[0].get_public_state().has_longest_route, Some(true));
    assert!(m.players[1].get_public_state().is_done_playing);
    assert_eq!(m.players[1].get_public_state().has_longest_route, Some(false));
}

#[test]
fn manager_draw_destination_cards() {
    let mut m = Manager::new();

    let player_id = m.add_player().unwrap();
    let other_player_id = m.add_player().unwrap();

    assert!(m.set_ready(player_id, true).is_ok());
    assert!(m.set_ready(other_player_id, true).is_ok());

    m.phase = GamePhase::Playing;
    m.turn = Some(0);

    let (player_id_first, player_id_second) = if m.get_player_index(player_id) == Some(0) {
        (player_id, other_player_id)
    } else {
        (other_player_id, player_id)
    };

    assert!(m.draw_destination_cards(player_id_first).is_ok());
    assert_eq!(
        m.players[0].get_private_state().pending_destination_cards.len(),
        NUM_DRAWN_DESTINATION_CARDS
    );
    // Can't draw again this turn.
    assert!(m.draw_destination_cards(player_id_first).is_err());
    // Wrong turn.
    assert_eq!(
        m.draw_destination_cards(player_id_second),
        Err(String::from("This is not your turn!"))
    );

    assert_eq!(m.turn, Some(0));

    let destination_cards_decisions = vec![true, false, false];
    assert!(m
        .select_destination_cards(player_id_first, destination_cards_decisions.clone())
        .is_ok());

    assert_eq!(m.turn, Some(1));

    // Next turn has started: it's not the first player's turn anymore.
    assert!(m.draw_destination_cards(player_id_first).is_err());
    assert!(m.draw_destination_cards(player_id_second).is_ok());
    // Can't draw again this turn.
    assert!(m.draw_destination_cards(player_id_second).is_err());

    assert_eq!(m.turn, Some(1));

    assert!(m
        .select_destination_cards(player_id_second, destination_cards_decisions)
        .is_ok());

    assert_eq!(m.turn, Some(2));
}

#[test]
fn manager_game_started() {
    let mut m = Manager::new();

    assert!(m.has_game_started().is_err());
    assert!(m.has_turn_based_game_started().is_err());

    m.phase = GamePhase::Starting;

    assert!(m.has_game_started().is_ok());
    assert!(m.has_turn_based_game_started().is_err());

    m.phase = GamePhase::Playing;

    assert!(m.has_game_started().is_ok());
    assert!(m.has_turn_based_game_started().is_ok());

    m.phase = GamePhase::LastTurn;

    assert!(m.has_game_started().is_ok());
    assert!(m.has_turn_based_game_started().is_ok());

    m.phase = GamePhase::Done;

    assert!(m.has_game_started().is_err());
    assert!(m.has_turn_based_game_started().is_err());
}

#[test]
fn action_response_from_result() {
    let ok = ActionResponse::new(Ok(()));
    assert!(ok.success);
    assert_eq!(ok.error_message, None);
    let err = ActionResponse::new(Err(String::from("This is not your turn!")));
    assert!(!err.success);
    assert_eq!(err.error_message, Some(String::from("This is not your turn!")));
}

// Scenarios of whole games.

fn started_game() -> (Manager, usize, usize) {
    let mut m = Manager::new();
    let a = m.add_player().unwrap();
    let b = m.add_player().unwrap();
    m.set_ready(a, true).unwrap();
    m.set_ready(b, true).unwrap();
    m.select_destination_cards(a, vec![true, true, false]).unwrap();
    m.select_destination_cards(b, vec![true, true, true]).unwrap();
    let first = m.players[0].id();
    let second = m.players[1].id();
    (m, first, second)
}

#[test]
fn scenario_lobby_name_collision() {
    let mut m = Manager::new();
    let first = m.add_player().unwrap();
    let second = m.add_player().unwrap();
    assert!(m.change_player_name(first, String::from("Bob")).is_ok());
    assert!(m.change_player_name(second, String::from("Bob")).is_err());
}

#[test]
fn scenario_game_start_gating() {
    let mut m = Manager::new();
    let first = m.add_player().unwrap();
    assert!(m.set_ready(first, true).is_ok());
    assert_eq!(m.phase, GamePhase::InLobby);

    let second = m.add_player().unwrap();
    assert!(m.set_ready(second, true).is_ok());
    assert_eq!(m.phase, GamePhase::Starting);
    for player in &m.players {
        assert_eq!(player.public.num_train_cards, 4);
        assert_eq!(player.private.pending_destination_cards.len(), 3);
    }
}

#[test]
fn scenario_initial_destination_selection() {
    let mut m = Manager::new();
    let a = m.add_player().unwrap();
    let b = m.add_player().unwrap();
    m.set_ready(a, true).unwrap();
    m.set_ready(b, true).unwrap();
    assert!(m.select_destination_cards(a, vec![false, false, true]).is_err());
    assert!(m.select_destination_cards(a, vec![true, false, true]).is_ok());
    assert_eq!(m.phase, GamePhase::Starting);
    assert!(m.select_destination_cards(b, vec![true, true, true]).is_ok());
    assert_eq!(m.phase, GamePhase::Playing);
    assert_eq!(m.turn, Some(0));
}

#[test]
fn scenario_turn_ownership() {
    let (mut m, first, second) = started_game();
    assert_eq!(m.draw_close_train_card(second), Err(String::from("This is not your turn!")));
    assert!(m.draw_destination_cards(second).is_err());
    assert!(m.draw_open_train_card(second, 0).is_err());
    assert_eq!(m.turn, Some(0));
    assert!(m.draw_close_train_card(first).is_ok());
}

#[test]
fn scenario_two_draw_train_card_turn() {
    let (mut m, first, _) = started_game();
    {
        let card_dealer = m.card_dealer.as_mut().unwrap();
        card_dealer.open_train_card_deck.set(0, Some(TrainColor::Red));
        card_dealer.open_train_card_deck.set(1, Some(TrainColor::Wild));
        card_dealer.open_train_card_deck.set(2, Some(TrainColor::Blue));
        card_dealer.open_train_card_deck.set(3, Some(TrainColor::Green));
        card_dealer.open_train_card_deck.set(4, Some(TrainColor::Pink));
        card_dealer.close_train_card_deck.push(TrainColor::Black);
    }
    assert!(m.draw_open_train_card(first, 0).is_ok());
    assert_eq!(m.turn, Some(0));
    assert_eq!(
        m.draw_open_train_card(first, 1),
        Err(String::from(
            "Cannot draw a wild card after having already drawn a train card this turn."
        ))
    );
    assert_eq!(m.turn, Some(0));
    assert!(m.draw_close_train_card(first).is_ok());
    assert_eq!(m.turn, Some(1));
}

#[test]
fn scenario_route_claim() {
    let (mut m, first, _) = started_game();
    m.players[0].private.train_cards[TrainColor::White.index()] += 2;
    m.players[0].public.num_train_cards += 2;
    let route = (City::Raleigh, City::Washington);
    assert!(m.claim_route(first, route, 0, vec![TrainColor::White, TrainColor::White]).is_ok());
    assert_eq!(m.players[0].public.points, 2);
    assert_eq!(m.players[0].public.cars, 43);
    assert_eq!(m.turn, Some(1));

    let mut map = m.map.take().unwrap();
    assert_eq!(
        map.claim_route_for_player(route, 1, &vec![TrainColor::White, TrainColor::White], first),
        Err(String::from("Cannot claim more than one route between Raleigh and Washington."))
    );
}

#[test]
fn scenario_end_game_trigger() {
    let (mut m, first, second) = started_game();
    m.players[0].public.cars = 4;
    m.players[0].private.train_cards[TrainColor::Wild.index()] += 2;
    m.players[0].public.num_train_cards += 2;
    m.players[0].private.selected_destination_cards.clear();
    m.players[1].private.selected_destination_cards.clear();
    let points_second = m.players[1].public.points;

    assert!(m
        .claim_route(first, (City::Raleigh, City::Washington), 0, vec![TrainColor::Wild; 2])
        .is_ok());
    assert_eq!(m.phase, GamePhase::LastTurn);
    assert_eq!(m.turn, Some(1));

    assert!(m.draw_destination_cards(second).is_ok());
    assert!(m.select_destination_cards(second, vec![true, true, true]).is_ok());
    assert_eq!(m.phase, GamePhase::LastTurn);

    assert!(m.draw_destination_cards(first).is_ok());
    assert!(m.select_destination_cards(first, vec![true, false, false]).is_ok());
    assert_eq!(m.phase, GamePhase::Done);

    assert_eq!(m.players[0].public.has_longest_route, Some(true));
    assert_eq!(m.players[1].public.has_longest_route, Some(false));
    assert!(m.players[1].public.points < points_second);
    assert!(m.draw_close_train_card(first).is_err());
}
