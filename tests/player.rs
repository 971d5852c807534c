use ticket_to_ride::card::{CardDealer, DestinationCard, DestinationHand, TrainColor};
use ticket_to_ride::city::City;
use ticket_to_ride::map::{ClaimedRoute, GameMap};
use ticket_to_ride::player::{Player, PlayerAction, PlayerColor, NUM_OF_CARS};

const PLAYER_ID: usize = 0;
const PLAYER_COLOR: PlayerColor = PlayerColor::Orange;

fn new_player() -> Player {
    Player::new(PLAYER_ID, PLAYER_COLOR, format!("Player {}", PLAYER_ID))
}

fn count(player: &Player, color: TrainColor) -> u8 {
    player.private.train_cards[color.index()]
}

fn set_count(player: &mut Player, color: TrainColor, num: u8) {
    player.private.train_cards[color.index()] = num;
}

#[test]
fn player_color_to_string() {
    assert_eq!(PlayerColor::Blue.to_string(), "blue");
    assert_eq!(PlayerColor::Red.to_string(), "red");
}

#[test]
fn player_new() {
    let player = new_player();
    assert_eq!(player.public.id, PLAYER_ID);
    assert_eq!(player.public.color, PLAYER_COLOR);
    assert_eq!(player.public.name, format!("Player {}", PLAYER_ID));
    assert_eq!(player.public.is_ready, false);
    assert_eq!(player.public.is_done_playing, false);
    assert_eq!(player.public.cars, NUM_OF_CARS);
    assert_eq!(player.public.points, 0);
    assert_eq!(player.public.turn_actions.turn, None);
    assert!(player.public.turn_actions.actions.is_empty());
    assert!(player.public.turn_actions.description.is_empty());
    assert!(player.public.claimed_routes.is_empty());
    assert_eq!(player.public.num_train_cards, 0);

    assert!(player.private.pending_destination_cards.is_empty());
    assert!(player.private.selected_destination_cards.is_empty());
}

#[test]
fn player_change() {
    let mut player = new_player();
    assert_eq!(player.color(), PLAYER_COLOR);
    assert_eq!(player.name(), format!("Player {}", PLAYER_ID));
    assert_eq!(player.ready(), false);
    assert_eq!(player.public.is_done_playing, false);

    let new_color = PlayerColor::Yellow;
    player.change_color(new_color);
    assert_eq!(player.color(), new_color);

    let new_name = String::from("NewPlayer");
    player.change_name(new_name.clone());
    assert_eq!(player.name(), new_name);

    player.set_ready(true);
    assert!(player.ready());
    player.set_ready(false);
    assert!(!player.ready());

    player.set_done_playing();
    assert!(player.public.is_done_playing);
}

#[test]
fn player_initialize_when_game_starts() {
    let mut card_dealer = CardDealer::new();
    let mut player = new_player();
    player.initialize_when_game_starts(&mut card_dealer);

    let sum_train_cards: u8 = player.private.train_cards.iter().sum();
    assert_eq!(sum_train_cards, 4);
    assert_eq!(player.public.num_train_cards, 4);
    assert_eq!(player.private.pending_destination_cards.len(), 3);
    assert!(player.private.selected_destination_cards.is_empty());
}

#[test]
fn player_claim_route_same_turn() {
    let mut player = new_player();

    let route = (City::Chicago, City::Pittsburgh);
    let cards = vec![TrainColor::Black, TrainColor::Black, TrainColor::Black];
    let turn = 5;
    let mut map = GameMap::new(2).unwrap();
    let mut card_dealer = CardDealer::new();

    player.public.turn_actions.turn = Some(turn);

    assert_eq!(
        player.claim_route(route, 0, cards, turn, &mut map, &mut card_dealer),
        Err(String::from(
            "Cannot claim route if you have drawn a train card or destination cards this turn."
        ))
    );
}

#[test]
fn player_claim_route_missing_cars() {
    let mut player = new_player();

    let route = (City::Chicago, City::Pittsburgh);
    let cards = vec![TrainColor::Black, TrainColor::Black, TrainColor::Black];
    let turn = 5;
    let mut map = GameMap::new(2).unwrap();
    let mut card_dealer = CardDealer::new();

    player.public.cars = 2;

    assert_eq!(
        player.claim_route(route, 0, cards, turn, &mut map, &mut card_dealer),
        Err(String::from(
            "Cannot claim route from Chicago to Pittsburgh with 3 cards, whilst having only 2 cars left.",
        ))
    );
    assert!(player.public.claimed_routes.is_empty());
}

#[test]
fn player_claim_route_missing_wild_cars() {
    let mut player = new_player();

    let route = (City::Chicago, City::Pittsburgh);
    let cards = vec![TrainColor::Wild, TrainColor::Wild, TrainColor::Black];
    let turn = 5;
    let mut map = GameMap::new(2).unwrap();
    let mut card_dealer = CardDealer::new();

    set_count(&mut player, TrainColor::Wild, 1);

    assert_eq!(
        player.claim_route(route, 0, cards, turn, &mut map, &mut card_dealer),
        Err(String::from("Cannot claim a route using 2 wild cards, whilst having only 1 left."))
    );
    assert!(player.public.claimed_routes.is_empty());
}

#[test]
fn player_claim_route_missing_non_wild_cars() {
    let mut player = new_player();

    let route = (City::Chicago, City::Pittsburgh);
    let cards = vec![TrainColor::Wild, TrainColor::Black, TrainColor::Black];
    let turn = 5;
    let mut map = GameMap::new(2).unwrap();
    let mut card_dealer = CardDealer::new();

    set_count(&mut player, TrainColor::Wild, 1);
    set_count(&mut player, TrainColor::Black, 1);

    assert_eq!(
        player.claim_route(route, 0, cards, turn, &mut map, &mut card_dealer),
        Err(String::from("Cannot claim a route using 2 black cards, whilst having only 1 left."))
    );
    assert!(player.public.claimed_routes.is_empty());
}

#[test]
fn player_claim_route_map_returns_err() {
    let route = (City::Chicago, City::Pittsburgh);
    let cards = vec![TrainColor::Wild, TrainColor::Black, TrainColor::Black];
    let turn = 5;
    let mut map = GameMap::new(2).unwrap();
    let mut card_dealer = CardDealer::new();

    assert!(map.claim_route_for_player(route, 0, &cards, PLAYER_ID).is_ok());

    let mut player = new_player();
    player.initialize_when_game_starts(&mut card_dealer);
    assert_eq!(player.public.num_train_cards, 4);

    set_count(&mut player, TrainColor::Wild, 1);
    set_count(&mut player, TrainColor::Black, 2);

    assert_eq!(
        player.claim_route(route, 1, cards, turn, &mut map, &mut card_dealer),
        Err(String::from("Cannot claim more than one route between Chicago and Pittsburgh."))
    );
    assert!(player.public.claimed_routes.is_empty());
    assert_eq!(player.public.num_train_cards, 4);
}

#[test]
fn player_claim_route() {
    let route = (City::Chicago, City::Pittsburgh);
    let parallel_route_index = 0;
    let cards = vec![TrainColor::Wild, TrainColor::Black, TrainColor::Black];
    let turn = 5;
    let mut map = GameMap::new(2).unwrap();
    let mut card_dealer = CardDealer::new();

    let mut player = new_player();
    player.initialize_when_game_starts(&mut card_dealer);
    assert_eq!(player.public.num_train_cards, 4);

    set_count(&mut player, TrainColor::Wild, 1);
    set_count(&mut player, TrainColor::Black, 3);

    assert_eq!(
        player.claim_route(route, parallel_route_index, cards.clone(), turn, &mut map, &mut card_dealer),
        Ok(true)
    );

    assert_eq!(player.public.turn_actions.turn, Some(turn));
    assert_eq!(player.public.turn_actions.actions.len(), 1);
    assert_eq!(player.public.turn_actions.actions[0], PlayerAction::ClaimedRoute);
    assert_eq!(player.public.turn_actions.description.len(), 1);
    assert_eq!(
        player.public.turn_actions.description[0],
        String::from(
            "Player 0 has claimed a route between Chicago and Pittsburgh of length 3 (4 points). They did so using 1 wild cards and 2 black cards."
        )
    );

    assert_eq!(count(&player, TrainColor::Wild), 0);
    assert_eq!(count(&player, TrainColor::Black), 1);

    assert_eq!(player.public.points, 4);
    assert_eq!(player.public.cars, NUM_OF_CARS - 3);
    assert_eq!(player.public.num_train_cards, 4 - 3);
    assert_eq!(
        player.public.claimed_routes,
        vec![ClaimedRoute { route, parallel_route_index, length: 3 }]
    );

    let discarded_train_cards = card_dealer.get_discarded_train_card_deck();
    assert!(discarded_train_cards.len() >= 3);
    assert_eq!(discarded_train_cards.as_slice()[discarded_train_cards.len() - 3..], cards);
}

#[test]
fn player_draw_open_train_card_drawn_destination_card_already() {
    let turn = 5;
    let mut card_dealer = CardDealer::new();

    let mut player = new_player();
    player.initialize_when_game_starts(&mut card_dealer);
    player.public.turn_actions.turn = Some(turn);
    player.public.turn_actions.actions.push(PlayerAction::DrewDestinationCards);

    assert_eq!(
        player.draw_open_train_card(0, turn, &mut card_dealer),
        Err(String::from(
            "Cannot draw a train card after having already drawn destination cards this turn."
        ))
    );
}

#[test]
fn player_draw_open_train_card_wild_card_second_draw() {
    let card_index = 0;
    let turn = 5;
    let mut card_dealer = CardDealer::new();

    card_dealer.get_mut_open_train_card_deck().set(card_index, Some(TrainColor::Wild));

    let mut player = new_player();
    player.initialize_when_game_starts(&mut card_dealer);
    player.public.turn_actions.turn = Some(turn);
    player.public.turn_actions.actions.push(PlayerAction::DrewCloseTrainCard);

    assert_eq!(
        player.draw_open_train_card(card_index, turn, &mut card_dealer),
        Err(String::from(
            "Cannot draw a wild card after having already drawn a train card this turn."
        ))
    );
}

#[test]
fn player_draw_open_train_card_wild_card_first_draw() {
    let card_index = 0;
    let turn = 5;
    let selected_card = TrainColor::Wild;
    let mut card_dealer = CardDealer::new();

    card_dealer.get_mut_open_train_card_deck().set(card_index, Some(selected_card));

    let mut player = new_player();
    player.initialize_when_game_starts(&mut card_dealer);
    let inventory_wild_cards = count(&player, selected_card);
    let num_train_cards = player.public.num_train_cards;

    assert_eq!(player.draw_open_train_card(card_index, turn, &mut card_dealer), Ok(true));
    assert_eq!(count(&player, selected_card), inventory_wild_cards + 1);
    assert_eq!(player.public.num_train_cards, num_train_cards + 1);
    assert_eq!(player.public.turn_actions.turn, Some(turn));
    assert_eq!(player.public.turn_actions.actions.len(), 1);
    assert_eq!(player.public.turn_actions.actions[0], PlayerAction::DrewOpenWildTrainCard);
    assert_eq!(player.public.turn_actions.description.len(), 1);
    assert!(player.public.turn_actions.description[0]
        .starts_with("Player 0 drew a wild train card from the open deck."));
}

#[test]
fn player_draw_open_train_card_non_wild_card_first_draw() {
    let card_index = 0;
    let turn = 5;
    let selected_card = TrainColor::Red;
    let mut card_dealer = CardDealer::new();

    card_dealer.get_mut_open_train_card_deck().set(card_index, Some(selected_card));

    let mut player = new_player();
    player.initialize_when_game_starts(&mut card_dealer);
    let inventory = count(&player, selected_card);
    let num_train_cards = player.public.num_train_cards;

    assert_eq!(player.draw_open_train_card(card_index, turn, &mut card_dealer), Ok(false));
    assert_eq!(count(&player, selected_card), inventory + 1);
    assert_eq!(player.public.num_train_cards, num_train_cards + 1);
    assert_eq!(player.public.turn_actions.turn, Some(turn));
    assert_eq!(player.public.turn_actions.actions.len(), 1);
    assert_eq!(player.public.turn_actions.actions[0], PlayerAction::DrewOpenNonWildTrainCard);
    assert_eq!(player.public.turn_actions.description.len(), 1);
    assert!(player.public.turn_actions.description[0]
        .starts_with("Player 0 drew a red train card from the open deck."));
}

#[test]
fn player_draw_open_train_card_non_wild_card_second_draw() {
    let card_index = 0;
    let turn = 5;
    let selected_card = TrainColor::Red;
    let mut card_dealer = CardDealer::new();

    card_dealer.get_mut_open_train_card_deck().set(card_index, Some(selected_card));

    let mut player = new_player();
    player.initialize_when_game_starts(&mut card_dealer);
    player.public.turn_actions.turn = Some(turn);
    player.public.turn_actions.actions.push(PlayerAction::DrewCloseTrainCard);
    player.public.turn_actions.description.push(String::new());
    let inventory = count(&player, selected_card);
    let num_train_cards = player.public.num_train_cards;

    assert_eq!(player.draw_open_train_card(card_index, turn, &mut card_dealer), Ok(true));
    assert_eq!(count(&player, selected_card), inventory + 1);
    assert_eq!(player.public.num_train_cards, num_train_cards + 1);
    assert_eq!(player.public.turn_actions.turn, Some(turn));
    assert_eq!(player.public.turn_actions.actions.len(), 2);
    assert_eq!(player.public.turn_actions.actions[1], PlayerAction::DrewOpenNonWildTrainCard);
    assert_eq!(player.public.turn_actions.description.len(), 2);
    assert!(player.public.turn_actions.description[1]
        .starts_with("Player 0 drew a red train card from the open deck."));
}

#[test]
fn player_draw_close_train_card_drawn_destination_card_already() {
    let turn = 5;
    let mut card_dealer = CardDealer::new();

    let mut player = new_player();
    player.initialize_when_game_starts(&mut card_dealer);
    player.public.turn_actions.turn = Some(turn);
    player.public.turn_actions.actions.push(PlayerAction::DrewDestinationCards);

    assert_eq!(
        player.draw_close_train_card(turn, &mut card_dealer),
        Err(String::from(
            "Cannot draw a train card after having already drawn destination cards this turn."
        ))
    );
}

#[test]
fn player_draw_close_train_card_first_draw() {
    let turn = 5;
    let selected_card = TrainColor::Wild;
    let mut card_dealer = CardDealer::new();

    // Insert the wild card 4 cards under the top, so it reaches the top of the deck
    // after the initial draw.
    let close_train_card_deck_len = card_dealer.get_close_train_card_deck().len();
    card_dealer
        .get_mut_close_train_card_deck()
        .insert(close_train_card_deck_len - 4, selected_card);

    let mut player = new_player();
    player.initialize_when_game_starts(&mut card_dealer);
    player.public.turn_actions.turn = Some(turn - 1);
    let inventory = count(&player, selected_card);
    let num_train_cards = player.public.num_train_cards;

    assert_eq!(player.draw_close_train_card(turn, &mut card_dealer), Ok(false));
    assert_eq!(count(&player, selected_card), inventory + 1);
    assert_eq!(player.public.num_train_cards, num_train_cards + 1);
    assert_eq!(player.public.turn_actions.turn, Some(turn));
    assert_eq!(player.public.turn_actions.actions.len(), 1);
    assert_eq!(player.public.turn_actions.actions[0], PlayerAction::DrewCloseTrainCard);
    assert_eq!(player.public.turn_actions.description.len(), 1);
    assert_eq!(
        player.public.turn_actions.description[0],
        String::from("Player 0 drew a train card from the close deck.")
    );
}

#[test]
fn player_draw_close_train_card_second_draw() {
    let turn = 5;
    let selected_card = TrainColor::Green;
    let mut card_dealer = CardDealer::new();

    let close_train_card_deck_len = card_dealer.get_close_train_card_deck().len();
    card_dealer
        .get_mut_close_train_card_deck()
        .insert(close_train_card_deck_len - 4, selected_card);

    let mut player = new_player();
    player.public.turn_actions.turn = Some(turn);
    player.public.turn_actions.actions.push(PlayerAction::DrewCloseTrainCard);
    player.public.turn_actions.description.push(String::new());
    player.initialize_when_game_starts(&mut card_dealer);
    let inventory = count(&player, selected_card);
    let num_train_cards = player.public.num_train_cards;

    assert_eq!(player.draw_close_train_card(turn, &mut card_dealer), Ok(true));
    assert_eq!(count(&player, selected_card), inventory + 1);
    assert_eq!(player.public.num_train_cards, num_train_cards + 1);
    assert_eq!(player.public.turn_actions.turn, Some(turn));
    assert_eq!(player.public.turn_actions.actions.len(), 2);
    assert_eq!(player.public.turn_actions.actions[1], PlayerAction::DrewCloseTrainCard);
    assert_eq!(player.public.turn_actions.description.len(), 2);
    assert_eq!(
        player.public.turn_actions.description[1],
        String::from("Player 0 drew a train card from the close deck.")
    );
}

#[test]
fn player_draw_destination_card_drawn_train_card_already() {
    let turn = 5;
    let mut card_dealer = CardDealer::new();

    let mut player = new_player();
    player.initialize_when_game_starts(&mut card_dealer);
    player.public.turn_actions.turn = Some(turn);
    player.public.turn_actions.actions.push(PlayerAction::DrewCloseTrainCard);

    assert_eq!(
        player.draw_destination_cards(turn, &mut card_dealer),
        Err(String::from("Cannot draw destination cards if you have drawn a train card this turn."))
    );
}

#[test]
fn player_draw_destination_card_drawn_train_card_emtpy() {
    let turn = 5;
    let mut card_dealer = CardDealer::new();

    let mut player = new_player();
    player.initialize_when_game_starts(&mut card_dealer);
    card_dealer.get_mut_destination_card_deck().clear();

    assert_eq!(
        player.draw_destination_cards(turn, &mut card_dealer),
        Err(String::from("Cannot draw from the destination card deck, as it is empty."))
    );
}

#[test]
fn player_draw_destination_card() {
    let turn = 5;
    let mut card_dealer = CardDealer::new();

    let mut player = new_player();
    player.initialize_when_game_starts(&mut card_dealer);
    player.private.pending_destination_cards = DestinationHand::new();

    let expected_destination_cards: Vec<DestinationCard> = card_dealer
        .get_destination_card_deck()
        .iter()
        .rev()
        .take(3)
        .cloned()
        .collect();

    assert_eq!(player.draw_destination_cards(turn, &mut card_dealer), Ok(false));
    assert_eq!(
        player.private.pending_destination_cards.to_vec(),
        expected_destination_cards
    );
    assert_eq!(player.public.turn_actions.turn, Some(turn));
    assert_eq!(player.public.turn_actions.actions.len(), 1);
    assert_eq!(player.public.turn_actions.actions[0], PlayerAction::DrewDestinationCards);
    assert_eq!(player.public.turn_actions.description.len(), 1);
    assert_eq!(
        player.public.turn_actions.description[0],
        String::from("Player 0 drew 3 destination cards. They have not selected which to keep yet.")
    );
}

#[test]
fn player_select_destination_card_initial_wrong_size() {
    let mut card_dealer = CardDealer::new();

    let mut player = new_player();
    player.initialize_when_game_starts(&mut card_dealer);

    assert_eq!(
        player.select_destination_cards(vec![true, true], None, &mut card_dealer),
        Err(String::from("Submitted 2 destination cards decisions, but 3 were drawn."))
    );
}

#[test]
fn player_select_destination_card_initial_not_enough_selected() {
    let mut card_dealer = CardDealer::new();

    let mut player = new_player();
    player.initialize_when_game_starts(&mut card_dealer);

    assert_eq!(
        player.select_destination_cards(vec![true, false, false], None, &mut card_dealer),
        Err(String::from("Cannot select only 1 destination cards, whilst the minimum is 2."))
    );
}

#[test]
fn player_select_destination_card_initial() {
    let mut card_dealer = CardDealer::new();

    let mut player = new_player();
    player.initialize_when_game_starts(&mut card_dealer);

    // The selected cards are inserted in opposite order of what they are in the pending list.
    let selected_destination_cards = vec![
        player.private.pending_destination_cards.get(2),
        player.private.pending_destination_cards.get(0),
    ];
    let discarded_destination_card = player.private.pending_destination_cards.get(1);

    assert_eq!(
        player.select_destination_cards(vec![true, false, true], None, &mut card_dealer),
        Ok(true)
    );
    assert!(player.public.turn_actions.turn.is_none());
    assert_eq!(player.public.turn_actions.actions.len(), 1);
    assert_eq!(player.public.turn_actions.actions[0], PlayerAction::SelectedDestinationCards);
    assert_eq!(player.public.turn_actions.description.len(), 1);
    assert_eq!(
        player.public.turn_actions.description[0],
        String::from("Player 0 selected 2 destination cards out of 3.")
    );
    assert_eq!(player.private.selected_destination_cards, selected_destination_cards);
    assert!(player.private.pending_destination_cards.is_empty());
    assert_eq!(
        card_dealer.get_destination_card_deck().front(),
        Some(&discarded_destination_card)
    );
}

#[test]
fn player_select_destination_card_not_initial_drawn_train_card_already() {
    let turn = Some(5);
    let mut card_dealer = CardDealer::new();

    let mut player = new_player();
    player.initialize_when_game_starts(&mut card_dealer);
    player.public.turn_actions.turn = turn;
    player.public.turn_actions.actions.push(PlayerAction::DrewCloseTrainCard);
    player.public.turn_actions.description.push(String::from(""));

    assert_eq!(
        player.select_destination_cards(vec![true, false, false], turn, &mut card_dealer),
        Err(String::from("Cannot select destination cards after having drawn a train card."))
    );
}

#[test]
fn player_select_destination_card_not_initial_not_enough_selected() {
    let turn = Some(5);
    let mut card_dealer = CardDealer::new();

    let mut player = new_player();
    player.initialize_when_game_starts(&mut card_dealer);
    player.public.turn_actions.turn = turn;
    player.public.turn_actions.actions.push(PlayerAction::DrewDestinationCards);
    player.public.turn_actions.description.push(String::from(""));

    assert_eq!(
        player.select_destination_cards(vec![false, false, false], turn, &mut card_dealer),
        Err(String::from("Cannot select only 0 destination cards, whilst the minimum is 1."))
    );
}

#[test]
fn player_select_destination_card_not_initial() {
    let turn = Some(5);
    let mut card_dealer = CardDealer::new();

    let mut player = new_player();
    player.initialize_when_game_starts(&mut card_dealer);
    player.public.turn_actions.turn = turn;
    player.public.turn_actions.actions.push(PlayerAction::DrewDestinationCards);
    player.public.turn_actions.description.push(String::from(""));

    let selected_destination_cards = vec![player.private.pending_destination_cards.get(1)];
    let discarded_destination_cards = vec![
        player.private.pending_destination_cards.get(0),
        player.private.pending_destination_cards.get(2),
    ];

    assert_eq!(
        player.select_destination_cards(vec![false, true, false], turn, &mut card_dealer),
        Ok(true)
    );
    assert_eq!(player.public.turn_actions.turn, turn);
    assert_eq!(player.public.turn_actions.actions.len(), 2);
    assert_eq!(player.public.turn_actions.actions[1], PlayerAction::SelectedDestinationCards);
    assert_eq!(player.public.turn_actions.description.len(), 2);
    assert_eq!(
        player.public.turn_actions.description[1],
        String::from("Player 0 selected 1 destination cards out of 3.")
    );
    assert_eq!(player.private.selected_destination_cards, selected_destination_cards);
    assert!(player.private.pending_destination_cards.is_empty());
    assert_eq!(
        card_dealer
            .get_destination_card_deck()
            .iter()
            .take(2)
            .cloned()
            .collect::<Vec<_>>(),
        discarded_destination_cards
    );
}

#[test]
fn player_get_same_player_state() {
    let mut card_dealer = CardDealer::new();

    let mut player = new_player();
    player.initialize_when_game_starts(&mut card_dealer);

    let player_state = player.get_player_state(PLAYER_ID);
    assert_eq!(&player.public, player_state.public_player_state);
    assert!(player_state.private_player_state.is_some());
    assert_eq!(&player.private, player_state.private_player_state.unwrap());
}

#[test]
fn player_get_different_player_state() {
    let mut card_dealer = CardDealer::new();

    let mut player = new_player();
    player.initialize_when_game_starts(&mut card_dealer);

    let player_state = player.get_player_state(PLAYER_ID + 1);
    assert_eq!(&player.public, player_state.public_player_state);
    assert!(player_state.private_player_state.is_none());
}

#[test]
fn player_finalize_scores_destinations_and_longest_route() {
    let mut map = GameMap::new(2).unwrap();
    let mut player = new_player();
    player.private.selected_destination_cards = vec![
        DestinationCard { destination: (City::Denver, City::ElPaso), points: 4 },
        DestinationCard { destination: (City::Boston, City::Miami), points: 12 },
    ];
    map.set_route_claimer((City::Denver, City::SantaFe), 0, PLAYER_ID);
    map.set_route_claimer((City::SantaFe, City::ElPaso), 0, PLAYER_ID);
    player.public.claimed_routes = vec![
        ClaimedRoute { route: (City::Denver, City::SantaFe), parallel_route_index: 0, length: 2 },
        ClaimedRoute { route: (City::SantaFe, City::ElPaso), parallel_route_index: 0, length: 2 },
    ];
    player.public.points = 4;

    assert_eq!(player.finalize(&map), 4);
    assert_eq!(player.public.points, 4 + 4 - 12);
}
