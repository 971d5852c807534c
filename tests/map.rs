use ticket_to_ride::card::TrainColor;
use ticket_to_ride::card::TrainColor::{Blue, Green, Orange, Pink, Red, White, Wild};
use ticket_to_ride::city::{City, CityToCity};
use ticket_to_ride::map::{ClaimedRoute, GameMap, Route};

struct ClaimRouteArgs {
    route: CityToCity,
    parallel_route_index: usize,
    other_parallel_route_index: usize,
    cards: Vec<TrainColor>,
    player_id: usize,
    other_player_id: usize,
}

impl Default for ClaimRouteArgs {
    fn default() -> Self {
        Self {
            route: (City::Denver, City::KansasCity),
            parallel_route_index: 1,
            other_parallel_route_index: 0,
            cards: vec![Orange; 4],
            player_id: 0,
            other_player_id: 1,
        }
    }
}

fn get_parallel_route(map: &GameMap, route: CityToCity, parallel_route_index: usize) -> Route {
    let parallel_route = map.get_parallel_route(route, parallel_route_index);
    assert!(parallel_route.is_some());
    parallel_route.unwrap()
}

// Claims the first of the parallel routes between two cities for a player.
fn claim_route_for_player(map: &mut GameMap, route: &CityToCity, player_id: usize) {
    assert!(map.get_parallel_routes(*route).is_some());
    map.set_route_claimer(*route, 0, player_id);
}

#[test]
fn get_one_parallel_route_between_adjacent_cities() {
    let map = GameMap::new(2).unwrap();

    let expected_parallel_routes = vec![Route::new(White, 6)];
    assert_eq!(
        map.get_parallel_routes((City::Calgary, City::Winnipeg)),
        Some(expected_parallel_routes.clone())
    );
    assert_eq!(
        map.get_parallel_routes((City::Winnipeg, City::Calgary)),
        Some(expected_parallel_routes)
    );
}

#[test]
fn get_two_parallel_routes_between_adjacent_cities() {
    let map = GameMap::new(2).unwrap();

    let expected_parallel_routes = vec![Route::new(Blue, 2), Route::new(Pink, 2)];
    assert_eq!(
        map.get_parallel_routes((City::KansasCity, City::SaintLouis)),
        Some(expected_parallel_routes.clone())
    );
    assert_eq!(
        map.get_parallel_routes((City::SaintLouis, City::KansasCity)),
        Some(expected_parallel_routes)
    );
}

#[test]
fn get_no_parallel_routes_between_non_adjacent_cities() {
    let map = GameMap::new(2).unwrap();

    assert_eq!(map.get_parallel_routes((City::Houston, City::NewYork)), None);
    assert_eq!(map.get_parallel_routes((City::Seattle, City::Miami)), None);
}

#[test]
fn new_map() {
    for num_players in 0..=7 {
        if num_players < 2 || num_players > 5 {
            assert!(GameMap::new(num_players).is_err(), "Fails with num_players={num_players}");
        } else {
            assert!(GameMap::new(num_players).is_ok(), "Fails with num_players={num_players}");
        }
    }
}

#[test]
fn new_map_error_message() {
    assert_eq!(
        GameMap::new(6).err(),
        Some(String::from(
            "Cannot create a game with 6 players: one must have at least two, and at most 5 players."
        ))
    );
}

#[test]
fn claim_non_existent_route() {
    let mut map = GameMap::new(2).unwrap();

    let mut args = ClaimRouteArgs::default();
    args.route = (City::LosAngeles, City::Charleston);

    let expected_result = Err(String::from(
        "No routes exist between Los Angeles and Charleston.",
    ));

    assert_eq!(
        map.claim_route_for_player(args.route, args.parallel_route_index, &args.cards, args.player_id),
        expected_result
    );
}

#[test]
fn claim_route_for_player_with_large_route_index() {
    let mut map = GameMap::new(2).unwrap();

    let mut args = ClaimRouteArgs::default();
    args.parallel_route_index = 10;

    let expected_result = Err(String::from(
        "The selected route (10) between Denver and Kansas City does not exist.",
    ));

    assert_eq!(
        map.claim_route_for_player(args.route, args.parallel_route_index, &args.cards, args.player_id),
        expected_result
    );
}

#[test]
fn claim_route_for_player_with_not_enough_cards() {
    let mut map = GameMap::new(2).unwrap();

    let mut args = ClaimRouteArgs::default();
    args.cards.clear();

    let expected_result = Err(String::from(
        "A route between Denver and Kansas City needs 4 cards, but 0 were provided.",
    ));

    assert_eq!(
        map.claim_route_for_player(args.route, args.parallel_route_index, &args.cards, args.player_id),
        expected_result
    );
}

#[test]
fn claim_route_for_player_with_too_many_cards() {
    let mut map = GameMap::new(2).unwrap();

    let mut args = ClaimRouteArgs::default();
    args.cards = vec![Orange; 5];

    let expected_result = Err(String::from(
        "A route between Denver and Kansas City needs 4 cards, but 5 were provided.",
    ));

    assert_eq!(
        map.claim_route_for_player(args.route, args.parallel_route_index, &args.cards, args.player_id),
        expected_result
    );
}

#[test]
fn claim_route_for_player_already_owned_by_player() {
    let mut map = GameMap::new(2).unwrap();

    let args = ClaimRouteArgs::default();

    map.set_route_claimer(args.route, args.parallel_route_index, args.player_id);

    let expected_result = Err(String::from(
        "The selected route between Denver and Kansas City is already claimed.",
    ));
    assert_eq!(
        map.claim_route_for_player(args.route, args.parallel_route_index, &args.cards, args.player_id),
        expected_result
    );

    // Claiming A->B should also claim B->A, so the following should also fail.
    let expected_result = Err(String::from(
        "The selected route between Kansas City and Denver is already claimed.",
    ));
    assert_eq!(
        map.claim_route_for_player(
            (args.route.1, args.route.0),
            args.parallel_route_index,
            &args.cards,
            args.player_id
        ),
        expected_result
    );
}

#[test]
fn claim_route_for_player_parallel_also_owned_by_player() {
    let mut map = GameMap::new(2).unwrap();

    let args = ClaimRouteArgs::default();

    map.set_route_claimer(args.route, args.other_parallel_route_index, args.player_id);

    let expected_result = Err(String::from(
        "Cannot claim more than one route between Denver and Kansas City.",
    ));

    assert_eq!(
        map.claim_route_for_player(args.route, args.parallel_route_index, &args.cards, args.player_id),
        expected_result
    );
}

#[test]
fn claim_route_for_player_parallel_route_owned_and_parallel_disabled() {
    // With two players, different players cannot claim parallel routes.
    let mut map = GameMap::new(2).unwrap();

    let args = ClaimRouteArgs::default();

    map.set_route_claimer(args.route, args.other_parallel_route_index, args.other_player_id);

    let expected_result = Err(String::from(
        "Another route is already claimed by someone else between Denver and Kansas City.",
    ));

    assert_eq!(
        map.claim_route_for_player(args.route, args.parallel_route_index, &args.cards, args.player_id),
        expected_result
    );
}

#[test]
fn claim_route_for_player_parallel_route_owned_but_parallel_enabled() {
    // With four players, different players can claim parallel routes.
    let mut map = GameMap::new(4).unwrap();

    let args = ClaimRouteArgs::default();

    map.set_route_claimer(args.route, args.other_parallel_route_index, args.other_player_id);

    let claimed_parallel_route = get_parallel_route(&map, args.route, args.parallel_route_index);
    assert!(claimed_parallel_route.claimer().is_none());

    let expected_result = Ok(ClaimedRoute {
        route: args.route,
        parallel_route_index: args.parallel_route_index,
        length: claimed_parallel_route.length,
    });

    assert_eq!(
        map.claim_route_for_player(args.route, args.parallel_route_index, &args.cards, args.player_id),
        expected_result
    );

    assert_eq!(
        get_parallel_route(&map, args.route, args.parallel_route_index).claimer(),
        Some(args.player_id)
    );
}

#[test]
fn claim_route_for_player_cards_different_colors() {
    let mut map = GameMap::new(2).unwrap();

    let mut args = ClaimRouteArgs::default();
    args.cards = vec![Orange, Orange, Blue, Orange];

    let expected_result = Err(String::from("Cannot claim a route with orange and blue cards."));
    assert_eq!(
        map.claim_route_for_player(args.route, args.parallel_route_index, &args.cards, args.player_id),
        expected_result
    );
}

#[test]
fn claim_route_for_player_cards_single_wrong_color() {
    let mut map = GameMap::new(2).unwrap();

    let mut args = ClaimRouteArgs::default();
    args.cards = vec![Red; 4];

    let expected_result = Err(String::from(
        "Cannot claim a route of color orange with red cards.",
    ));
    assert_eq!(
        map.claim_route_for_player(args.route, args.parallel_route_index, &args.cards, args.player_id),
        expected_result
    );
}

fn assert_claim_succeeds(map: &mut GameMap, args: &ClaimRouteArgs) {
    let claimed_route = get_parallel_route(map, args.route, args.parallel_route_index);
    assert!(claimed_route.claimer().is_none());

    let expected_result = Ok(ClaimedRoute {
        route: args.route,
        parallel_route_index: args.parallel_route_index,
        length: claimed_route.length,
    });
    assert_eq!(
        map.claim_route_for_player(args.route, args.parallel_route_index, &args.cards, args.player_id),
        expected_result
    );
    assert_eq!(
        get_parallel_route(map, args.route, args.parallel_route_index).claimer(),
        Some(args.player_id)
    );
}

#[test]
fn claim_route_for_player_cards_single_right_color() {
    let mut map = GameMap::new(2).unwrap();
    let args = ClaimRouteArgs::default();
    assert_claim_succeeds(&mut map, &args);
}

#[test]
fn claim_route_for_player_cards_color_and_wild() {
    let mut map = GameMap::new(2).unwrap();
    let mut args = ClaimRouteArgs::default();
    args.cards = vec![Orange, Wild, Wild, Orange];
    assert_claim_succeeds(&mut map, &args);
}

#[test]
fn claim_route_for_player_cards_only_wild() {
    let mut map = GameMap::new(2).unwrap();
    let mut args = ClaimRouteArgs::default();
    args.cards = vec![Wild; 4];
    assert_claim_succeeds(&mut map, &args);
}

#[test]
fn claim_wild_route_cards_single_color() {
    let mut map = GameMap::new(2).unwrap();
    let mut args = ClaimRouteArgs::default();
    args.route = (City::Pittsburgh, City::Toronto);
    args.parallel_route_index = 0;
    args.cards = vec![Green; 2];
    assert_claim_succeeds(&mut map, &args);
}

#[test]
fn claim_route_for_player_impacts_opposite_direction() {
    let mut map = GameMap::new(2).unwrap();

    let args = ClaimRouteArgs::default();

    let opposite_direction_claimed_route = get_parallel_route(
        &map,
        (args.route.1, args.route.0),
        args.parallel_route_index,
    );
    assert!(opposite_direction_claimed_route.claimer().is_none());

    let expected_result = Ok(ClaimedRoute {
        route: args.route,
        parallel_route_index: args.parallel_route_index,
        length: opposite_direction_claimed_route.length,
    });

    assert_eq!(
        map.claim_route_for_player(args.route, args.parallel_route_index, &args.cards, args.player_id),
        expected_result
    );

    assert_eq!(
        get_parallel_route(&map, (args.route.1, args.route.0), args.parallel_route_index).claimer(),
        Some(args.player_id)
    );
}

#[test]
fn claim_parallel_routes_by_distinct_players_in_two_player_game() {
    let mut map = GameMap::new(2).unwrap();
    let route = (City::Raleigh, City::Washington);
    assert!(map.claim_route_for_player(route, 0, &vec![White, White], 0).is_ok());
    assert!(map.claim_route_for_player(route, 1, &vec![Red, Red], 1).is_err());
    assert!(map.claim_route_for_player(route, 1, &vec![Red, Red], 0).is_err());
}

#[test]
fn claim_parallel_routes_by_distinct_players_in_four_player_game() {
    let mut map = GameMap::new(4).unwrap();
    let route = (City::Raleigh, City::Washington);
    assert!(map.claim_route_for_player(route, 0, &vec![White, White], 0).is_ok());
    assert_eq!(
        map.claim_route_for_player(route, 1, &vec![Red, Red], 0),
        Err(String::from("Cannot claim more than one route between Raleigh and Washington."))
    );
    assert!(map.claim_route_for_player(route, 1, &vec![Red, Red], 1).is_ok());
}

#[test]
fn destination_not_fulfilled_at_start() {
    let map = GameMap::new(2).unwrap();

    assert_eq!(
        map.has_player_fulfilled_destination((City::Calgary, City::Winnipeg), 0),
        false
    );
}

#[test]
fn destination_partially_fulfilled() {
    let mut map = GameMap::new(2).unwrap();
    let player_id = 0;

    claim_route_for_player(&mut map, &(City::SaltLakeCity, City::Denver), player_id);
    assert_eq!(
        map.has_player_fulfilled_destination((City::Denver, City::Portland), player_id),
        false
    );
}

#[test]
fn destination_fulfilled_by_another_player() {
    let mut map = GameMap::new(2).unwrap();
    let player_id = 0;
    let other_player_id = 1;

    claim_route_for_player(&mut map, &(City::SaltLakeCity, City::SanFrancisco), other_player_id);
    claim_route_for_player(&mut map, &(City::SaltLakeCity, City::SanFrancisco), other_player_id);
    claim_route_for_player(&mut map, &(City::Portland, City::SanFrancisco), other_player_id);

    assert_eq!(
        map.has_player_fulfilled_destination((City::Denver, City::Portland), player_id),
        false
    );
}

#[test]
fn short_destination_fulfilled() {
    let mut map = GameMap::new(2).unwrap();
    let player_id = 0;

    claim_route_for_player(&mut map, &(City::ElPaso, City::Phoenix), player_id);
    assert!(map.has_player_fulfilled_destination((City::Phoenix, City::ElPaso), player_id));
}

#[test]
fn long_destination_fulfilled() {
    let mut map = GameMap::new(2).unwrap();
    let player_id = 0;

    claim_route_for_player(&mut map, &(City::SaltLakeCity, City::Denver), player_id);
    claim_route_for_player(&mut map, &(City::SaltLakeCity, City::SanFrancisco), player_id);
    claim_route_for_player(&mut map, &(City::Portland, City::SanFrancisco), player_id);
    claim_route_for_player(&mut map, &(City::SanFrancisco, City::LosAngeles), player_id);
    claim_route_for_player(&mut map, &(City::Helena, City::SaltLakeCity), player_id);

    assert!(map.has_player_fulfilled_destination((City::Denver, City::Portland), player_id));
}

#[test]
fn destination_to_itself_and_symmetry() {
    let mut map = GameMap::new(2).unwrap();
    let player_id = 0;
    assert!(!map.has_player_fulfilled_destination((City::Denver, City::Denver), player_id));
    claim_route_for_player(&mut map, &(City::SaltLakeCity, City::Denver), player_id);
    assert!(map.has_player_fulfilled_destination((City::Denver, City::Denver), player_id));
    assert!(map.has_player_fulfilled_destination((City::Denver, City::SaltLakeCity), player_id));
    assert!(map.has_player_fulfilled_destination((City::SaltLakeCity, City::Denver), player_id));
    assert!(!map.has_player_fulfilled_destination((City::Denver, City::SaltLakeCity), 1));
}

#[test]
fn points_for_claimed_route() {
    let expected = [(1, 1), (2, 2), (3, 4), (4, 7), (5, 10), (6, 15)];
    for (length, points) in expected {
        assert_eq!(GameMap::calculate_points_for_claimed_route(length), points);
    }
}

fn claimed(start: City, end: City, length: u8) -> ClaimedRoute {
    ClaimedRoute { route: (start, end), parallel_route_index: 0, length }
}

#[test]
fn longest_route_zero_length() {
    assert_eq!(GameMap::get_longest_route(&vec![]), 0);
}

#[test]
fn longest_route_one_length() {
    let claimed_routes = vec![claimed(City::ElPaso, City::Phoenix, 3)];
    assert_eq!(GameMap::get_longest_route(&claimed_routes), 3);
}

#[test]
fn longest_route_two_length() {
    let claimed_routes = vec![
        claimed(City::ElPaso, City::Phoenix, 3),
        claimed(City::Denver, City::Phoenix, 5),
    ];
    assert_eq!(GameMap::get_longest_route(&claimed_routes), 8);
}

#[test]
fn longest_route_long_line() {
    let claimed_routes = vec![
        claimed(City::ElPaso, City::Phoenix, 3),
        claimed(City::Denver, City::Phoenix, 5),
        claimed(City::Denver, City::KansasCity, 4),
        claimed(City::KansasCity, City::OklahomaCity, 2),
        claimed(City::OklahomaCity, City::Dallas, 2),
    ];
    assert_eq!(GameMap::get_longest_route(&claimed_routes), 16);
}

#[test]
fn longest_route_long_single_loop() {
    let claimed_routes = vec![
        claimed(City::ElPaso, City::Phoenix, 3),
        claimed(City::Denver, City::Phoenix, 5),
        claimed(City::Denver, City::KansasCity, 4),
        claimed(City::KansasCity, City::OklahomaCity, 2),
        claimed(City::OklahomaCity, City::Dallas, 2),
        claimed(City::Dallas, City::ElPaso, 4),
    ];
    assert_eq!(GameMap::get_longest_route(&claimed_routes), 20);
}

#[test]
fn longest_route_realistic() {
    let claimed_routes = vec![
        claimed(City::NewOrleans, City::LittleRock, 3),
        claimed(City::LittleRock, City::SaintLouis, 2),
        claimed(City::SaintLouis, City::Chicago, 2),
        claimed(City::Phoenix, City::Denver, 5),
        claimed(City::Denver, City::KansasCity, 4),
        claimed(City::KansasCity, City::SaintLouis, 2),
        claimed(City::Chicago, City::Toronto, 4),
        claimed(City::Toronto, City::Montreal, 3),
        claimed(City::Denver, City::SantaFe, 2),
        claimed(City::SantaFe, City::ElPaso, 2),
        claimed(City::SantaFe, City::Phoenix, 3),
        claimed(City::Denver, City::OklahomaCity, 4),
        claimed(City::OklahomaCity, City::LittleRock, 2),
        claimed(City::NewOrleans, City::Miami, 6),
        claimed(City::Vancouver, City::Calgary, 3),
    ];
    assert_eq!(GameMap::get_longest_route(&claimed_routes), 40);
}

#[test]
fn longest_route_convoluted() {
    let claimed_routes = vec![
        claimed(City::Portland, City::SaltLakeCity, 6),
        claimed(City::SaltLakeCity, City::Helena, 3),
        claimed(City::Helena, City::Seattle, 6),
        claimed(City::Seattle, City::Portland, 1),
        claimed(City::Helena, City::Denver, 4),
        claimed(City::Denver, City::SaltLakeCity, 3),
        claimed(City::SaltLakeCity, City::LasVegas, 3),
        claimed(City::LasVegas, City::LosAngeles, 2),
        claimed(City::LosAngeles, City::Phoenix, 3),
        claimed(City::Vancouver, City::Calgary, 3),
        claimed(City::OklahomaCity, City::LittleRock, 2),
        claimed(City::NewOrleans, City::Miami, 6),
    ];
    assert_eq!(GameMap::get_longest_route(&claimed_routes), 31);
}

#[test]
fn longest_route_from_city_and_disjoint_addition() {
    let claimed_routes = vec![
        claimed(City::ElPaso, City::Phoenix, 3),
        claimed(City::Denver, City::Phoenix, 5),
    ];
    assert_eq!(GameMap::get_longest_route_from_city(City::ElPaso, &claimed_routes), 8);
    assert_eq!(GameMap::get_longest_route_from_city(City::Phoenix, &claimed_routes), 5);
    assert_eq!(GameMap::get_longest_route_from_city(City::Miami, &claimed_routes), 0);
    let mut more = claimed_routes.clone();
    more.push(claimed(City::NewOrleans, City::Miami, 6));
    assert!(GameMap::get_longest_route(&more) >= GameMap::get_longest_route(&claimed_routes));
    assert!(GameMap::get_longest_route(&more) <= 3 + 5 + 6);
}
