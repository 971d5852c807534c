//! A participant of the game: their public and private state, and the actions they take on
//! the card dealer and the map.

use crate::card::{
    color_index, hand_cards, open_slots, train_color_name, CardDealer, DestinationCard,
    DestinationHand, TrainColor,
};
use crate::city::{city_name, CityToCity};
use crate::map::{
    connected, is_longest, lookup, points_for_length, segment, ClaimedRoute,
    GameMap,
};
use crate::text::{decimal, usize_to_string};
use vstd::prelude::*;

verus! {

broadcast use vstd::seq_lib::group_to_multiset_ensures, vstd::multiset::group_multiset_axioms;

/// Every player starts the game with 45 cars.
pub const NUM_OF_CARS: u8 = 45;

/// All actions taken by a player have the same result: whether the player's turn is over,
/// or why the action failed.
pub type ActionResult = Result<bool, String>;

/// Every player has their own color.
#[derive(Clone, Copy, Debug, PartialEq, Eq, Structural, Hash)]
pub enum PlayerColor {
    Black,
    Blue,
    Green,
    Orange,
    Pink,
    Red,
    Yellow,
    White,
}

/// The lower-case name of a player color.
pub open spec fn player_color_name(c: PlayerColor) -> Seq<char> {
    match c {
        PlayerColor::Black => "black"@,
        PlayerColor::Blue => "blue"@,
        PlayerColor::Green => "green"@,
        PlayerColor::Orange => "orange"@,
        PlayerColor::Pink => "pink"@,
        PlayerColor::Red => "red"@,
        PlayerColor::Yellow => "yellow"@,
        PlayerColor::White => "white"@,
    }
}

impl PlayerColor {
    /// The lower-case name of this color.
    pub fn to_string(&self) -> (r: String)
        ensures
            r@ == player_color_name(*self),
    {
        match self {
            PlayerColor::Black => String::from_str("black"),
            PlayerColor::Blue => String::from_str("blue"),
            PlayerColor::Green => String::from_str("green"),
            PlayerColor::Orange => String::from_str("orange"),
            PlayerColor::Pink => String::from_str("pink"),
            PlayerColor::Red => String::from_str("red"),
            PlayerColor::Yellow => String::from_str("yellow"),
            PlayerColor::White => String::from_str("white"),
        }
    }
}

/// The actions a player can take; a turn holds one or two of them.
#[derive(Clone, Copy, Debug, PartialEq, Eq, Structural)]
pub enum PlayerAction {
    /// The first and only action of a turn.
    ClaimedRoute,
    /// The first and only action of a turn.
    DrewOpenWildTrainCard,
    /// The first or second of two train card draws.
    DrewOpenNonWildTrainCard,
    /// The first or second of two train card draws.
    DrewCloseTrainCard,
    /// The first of two actions, followed by the selection of destination cards.
    DrewDestinationCards,
    /// Follows the draw of destination cards, or stands alone for the initial selection.
    SelectedDestinationCards,
}

/// The actions taken at a given turn, with a sentence describing each.
#[derive(Debug, PartialEq)]
pub struct TurnActions {
    /// `None` until the player acts in the turn-based game.
    pub turn: Option<usize>,
    /// The one or two actions of that turn.
    pub actions: Vec<PlayerAction>,
    /// A sentence for each action, with nothing private in it.
    pub description: Vec<String>,
}

/// Information about a player that is visible to all players.
#[derive(Debug, PartialEq)]
pub struct PublicPlayerState {
    pub id: usize,
    pub name: String,
    pub color: PlayerColor,
    pub is_ready: bool,
    pub is_done_playing: bool,
    /// The number of cars the player has left.
    pub cars: u8,
    /// The points gained so far; destination cards that are not fulfilled may make it negative
    /// at the end of the game.
    pub points: i32,
    pub turn_actions: TurnActions,
    pub claimed_routes: Vec<ClaimedRoute>,
    /// How many train cards the player holds.
    pub num_train_cards: u8,
    /// Whether the player holds the longest route; `None` until the game is done.
    pub has_longest_route: Option<bool>,
}

/// Information about a player that only this player may see.
#[derive(Debug, PartialEq)]
pub struct PrivatePlayerState {
    /// How many cards of each train color the player holds, indexed by the color's position.
    pub train_cards: Vec<u8>,
    /// Destination cards drawn and not selected or returned yet.
    pub pending_destination_cards: DestinationHand,
    /// Destination cards the player keeps and tries to fulfill.
    pub selected_destination_cards: Vec<DestinationCard>,
}

/// A player's state as seen by some player: the private part only for that player.
pub struct PlayerState<'a> {
    pub public_player_state: &'a PublicPlayerState,
    pub private_player_state: Option<&'a PrivatePlayerState>,
}

/// One participant of the game.
pub struct Player {
    pub public: PublicPlayerState,
    pub private: PrivatePlayerState,
}

/// The sum of card counts.
pub open spec fn sum_counts(s: Seq<u8>) -> nat
    decreases s.len(),
{
    if s.len() == 0 {
        0
    } else {
        sum_counts(s.drop_last()) + s.last() as nat
    }
}

/// Changing one count changes the sum by the same amount.
proof fn lemma_sum_counts_update(s: Seq<u8>, i: int, v: u8)
    requires
        0 <= i < s.len(),
    ensures
        s[i] <= sum_counts(s),
        sum_counts(s.update(i, v)) == sum_counts(s) - s[i] + v,
    decreases s.len(),
{
    let u = s.update(i, v);
    if i == s.len() - 1 {
        assert(u.drop_last() =~= s.drop_last());
    } else {
        assert(u.drop_last() =~= s.drop_last().update(i, v));
        lemma_sum_counts_update(s.drop_last(), i, v);
    }
}

/// The total length of claimed routes.
pub open spec fn claimed_length(routes: Seq<ClaimedRoute>) -> nat
    decreases routes.len(),
{
    if routes.len() == 0 {
        0
    } else {
        claimed_length(routes.drop_last()) + routes.last().length as nat
    }
}

/// The number of wild cards in a hand.
pub open spec fn num_wild(cards: Seq<TrainColor>) -> nat {
    cards.to_multiset().count(TrainColor::Wild)
}

/// The number of real-colored cards in a hand.
pub open spec fn num_non_wild(cards: Seq<TrainColor>) -> nat {
    (cards.len() - num_wild(cards)) as nat
}

/// The first real color of a hand, if any.
pub open spec fn first_real_color(cards: Seq<TrainColor>) -> Option<TrainColor>
    decreases cards.len(),
{
    if cards.len() == 0 {
        None
    } else {
        match first_real_color(cards.drop_last()) {
            Some(c) => Some(c),
            None => if cards.last() != TrainColor::Wild {
                Some(cards.last())
            } else {
                None
            },
        }
    }
}

/// The first real color of a hand is not wild.
proof fn lemma_first_real_color(cards: Seq<TrainColor>)
    ensures
        first_real_color(cards) matches Some(c) ==> c != TrainColor::Wild,
    decreases cards.len(),
{
    if cards.len() > 0 {
        lemma_first_real_color(cards.drop_last());
    }
}

/// The part of the sentence of a claim that tells which cards were used.
pub open spec fn cards_used_description(cards: Seq<TrainColor>) -> Seq<char> {
    let w = num_wild(cards);
    let n = num_non_wild(cards);
    let c = first_real_color(cards).unwrap();
    if w > 0 && n > 0 {
        decimal(w) + " wild cards and "@ + decimal(n) + " "@ + train_color_name(c) + " cards"@
    } else if n > 0 {
        decimal(n) + " "@ + train_color_name(c) + " cards"@
    } else {
        decimal(w) + " wild cards"@
    }
}

/// The sentence telling that a player claimed a route.
pub open spec fn claimed_route_description(
    name: Seq<char>,
    route: CityToCity,
    length: u8,
    cards: Seq<TrainColor>,
) -> Seq<char> {
    name + " has claimed a route between "@ + city_name(route.0) + " and "@ + city_name(route.1)
        + " of length "@ + decimal(length as nat) + " ("@ + decimal(
        points_for_length(length as int) as nat,
    ) + " points). They did so using "@ + cards_used_description(cards) + "."@
}

/// The sentence telling that a player drew an open train card.
pub open spec fn drew_open_train_card_description(
    name: Seq<char>,
    card: TrainColor,
    reshuffled: bool,
) -> Seq<char> {
    if reshuffled {
        name + " drew a "@ + train_color_name(card)
            + " train card from the open deck. The open deck was then re-shuffled because there were three wild cards."@
    } else {
        name + " drew a "@ + train_color_name(card) + " train card from the open deck."@
    }
}

/// The destination cards whose decision is `keep`, from the last to the first.
pub open spec fn picked(
    cards: Seq<DestinationCard>,
    decisions: Seq<bool>,
    keep: bool,
    n: int,
) -> Seq<DestinationCard>
    decreases n,
{
    if n <= 0 {
        Seq::empty()
    } else {
        let rest = picked(cards, decisions, keep, n - 1);
        if decisions[n - 1] == keep {
            seq![cards[n - 1]] + rest
        } else {
            rest
        }
    }
}

/// The points a player gains for destination cards: those whose cities the player
/// connected add their points, the others subtract them.
pub open spec fn destination_score(
    routes: Seq<crate::map::ParallelRoutes>,
    player_id: usize,
    cards: Seq<DestinationCard>,
) -> int
    decreases cards.len(),
{
    if cards.len() == 0 {
        0
    } else {
        let c = cards.last();
        destination_score(routes, player_id, cards.drop_last()) + if connected(
            routes,
            player_id,
            c.destination.0,
            c.destination.1,
        ) {
            c.points as int
        } else {
            -(c.points as int)
        }
    }
}

/// The number of `true` decisions.
pub open spec fn num_selected(decisions: Seq<bool>) -> nat {
    decisions.to_multiset().count(true)
}

fn count_hand(cards: &Vec<TrainColor>) -> (r: (usize, usize, Option<TrainColor>))
    ensures
        r.0 == num_wild(cards@),
        r.1 == num_non_wild(cards@),
        r.2 == first_real_color(cards@),
        r.0 + r.1 == cards@.len(),
        r.1 > 0 <==> r.2 is Some,
{
    let mut wilds: usize = 0;
    let mut others: usize = 0;
    let mut first: Option<TrainColor> = None;
    let mut i: usize = 0;
    while i < cards.len()
        invariant
            i <= cards@.len(),
            wilds == num_wild(cards@.subrange(0, i as int)),
            wilds + others == i,
            first == first_real_color(cards@.subrange(0, i as int)),
            others > 0 <==> first is Some,
        decreases cards@.len() - i,
    {
        proof {
            let s = cards@.subrange(0, i + 1);
            assert(s =~= cards@.subrange(0, i as int).push(cards@[i as int]));
            assert(s.drop_last() =~= cards@.subrange(0, i as int));
        }
        let card = cards[i];
        if card.is_wild() {
            wilds = wilds + 1;
        } else {
            if first.is_none() {
                first = Some(card);
            }
            others = others + 1;
        }
        i = i + 1;
    }
    proof {
        assert(cards@.subrange(0, i as int) =~= cards@);
    }
    (wilds, others, first)
}

fn count_selected(decisions: &Vec<bool>) -> (r: usize)
    ensures
        r == num_selected(decisions@),
        r <= decisions@.len(),
{
    let mut n: usize = 0;
    let mut i: usize = 0;
    while i < decisions.len()
        invariant
            i <= decisions@.len(),
            n == num_selected(decisions@.subrange(0, i as int)),
            n <= i,
        decreases decisions@.len() - i,
    {
        proof {
            assert(decisions@.subrange(0, i + 1) =~= decisions@.subrange(0, i as int).push(
                decisions@[i as int],
            ));
        }
        if decisions[i] {
            n = n + 1;
        }
        i = i + 1;
    }
    proof {
        assert(decisions@.subrange(0, i as int) =~= decisions@);
    }
    n
}

impl Player {
    /// The player's state is consistent: a count for each of the nine train colors whose
    /// sum is the number of train cards, points within what the claimed routes give, and
    /// the cars left and the lengths of the claimed routes adding up to the 45 cars a player
    /// starts with, each route using at least one.
    pub open spec fn wf(&self) -> bool {
        &&& self.private.train_cards@.len() == 9
        &&& self.public.num_train_cards as nat == sum_counts(self.private.train_cards@)
        &&& 0 <= self.public.points <= 15 * self.public.claimed_routes@.len()
        &&& self.public.claimed_routes@.len() + self.public.cars <= NUM_OF_CARS
        &&& claimed_length(self.public.claimed_routes@) + self.public.cars == NUM_OF_CARS
        &&& hand_cards(self.private.pending_destination_cards).len() <= 3
    }

    /// How many cards of a train color the player holds.
    pub open spec fn count_of(&self, c: TrainColor) -> u8 {
        self.private.train_cards@[color_index(c) as int]
    }

    /// Whether the player already acted in the given turn.
    pub open spec fn acted_in(&self, turn: usize) -> bool {
        self.public.turn_actions.turn == Some(turn)
    }

    /// Whether the first action logged for the player's last turn is a draw of destination
    /// cards.
    pub open spec fn started_with_destinations(&self) -> bool {
        self.public.turn_actions.actions@.len() > 0 && self.public.turn_actions.actions@[0]
            == PlayerAction::DrewDestinationCards
    }

    /// Creates a player with 45 cars, no points, no cards and an empty turn log.
    pub fn new(id: usize, color: PlayerColor, name: String) -> (r: Player)
        ensures
            r.wf(),
            r.public.id == id,
            r.public.color == color,
            r.public.name == name,
            !r.public.is_ready,
            !r.public.is_done_playing,
            r.public.cars == NUM_OF_CARS,
            r.public.points == 0,
            r.public.turn_actions.turn is None,
            r.public.turn_actions.actions@.len() == 0,
            r.public.turn_actions.description@.len() == 0,
            r.public.claimed_routes@.len() == 0,
            r.public.num_train_cards == 0,
            forall|c: TrainColor| #[trigger] r.count_of(c) == 0,
            hand_cards(r.private.pending_destination_cards).len() == 0,
            r.private.selected_destination_cards@.len() == 0,
    {
        let mut train_cards: Vec<u8> = Vec::new();
        let mut i: usize = 0;
        while i < 9
            invariant
                i <= 9,
                train_cards@.len() == i,
                forall|j: int| 0 <= j < i ==> #[trigger] train_cards@[j] == 0,
                sum_counts(train_cards@) == 0,
            decreases 9 - i,
        {
            proof {
                assert(train_cards@.push(0).drop_last() =~= train_cards@);
            }
            train_cards.push(0);
            i = i + 1;
        }
        Player {
            public: PublicPlayerState {
                id,
                name,
                color,
                is_ready: false,
                is_done_playing: false,
                cars: NUM_OF_CARS,
                points: 0,
                turn_actions: TurnActions { turn: None, actions: Vec::new(), description: Vec::new() },
                claimed_routes: Vec::new(),
                num_train_cards: 0,
                has_longest_route: None,
            },
            private: PrivatePlayerState {
                train_cards,
                pending_destination_cards: DestinationHand::new(),
                selected_destination_cards: Vec::new(),
            },
        }
    }

    fn add_train_card(&mut self, card: TrainColor)
        requires
            old(self).wf(),
            old(self).public.num_train_cards < 255,
        ensures
            final(self).wf(),
            final(self).public.num_train_cards == old(self).public.num_train_cards + 1,
            final(self).count_of(card) == old(self).count_of(card) + 1,
            final(self).private.train_cards@ == old(self).private.train_cards@.update(
                color_index(card) as int,
                (old(self).count_of(card) + 1) as u8,
            ),
            final(self).public.points == old(self).public.points,
            final(self).public.cars == old(self).public.cars,
            final(self).public.id == old(self).public.id,
            final(self).public.name == old(self).public.name,
            final(self).public.turn_actions == old(self).public.turn_actions,
            final(self).public.claimed_routes == old(self).public.claimed_routes,
            final(self).private.pending_destination_cards == old(self).private.pending_destination_cards,
            final(self).private.selected_destination_cards == old(self).private.selected_destination_cards,
    {
        let j = card.index();
        let n = self.private.train_cards[j];
        proof {
            lemma_sum_counts_update(self.private.train_cards@, j as int, (n + 1) as u8);
        }
        self.private.train_cards.set(j, n + 1);
        self.public.num_train_cards = self.public.num_train_cards + 1;
    }

    /// Gives the player their initial train and destination cards, when the game starts.
    pub fn initialize_when_game_starts(&mut self, card_dealer: &mut CardDealer)
        requires
            old(self).wf(),
            old(self).public.num_train_cards <= 250,
            hand_cards(old(self).private.pending_destination_cards).len() == 0,
            old(card_dealer).wf(),
            old(card_dealer).stocked(),
            old(card_dealer).supply() >= 4,
            old(card_dealer).destination_card_deck@.len() >= 3,
        ensures
            final(self).wf(),
            final(card_dealer).wf(),
            final(card_dealer).stocked(),
            final(card_dealer).supply() + 4 == old(card_dealer).supply(),
            final(card_dealer).census().len() + 4 == old(card_dealer).census().len(),
            final(card_dealer).destination_card_deck@.len() + 3 == old(card_dealer).destination_card_deck@.len(),
            final(card_dealer).open_train_card_deck == old(card_dealer).open_train_card_deck,
            final(self).public.num_train_cards == old(self).public.num_train_cards + 4,
            hand_cards(final(self).private.pending_destination_cards).len() == 3,
            final(self).public.id == old(self).public.id,
            final(self).public.turn_actions == old(self).public.turn_actions,
            final(self).public.cars == old(self).public.cars,
            final(self).public.points == old(self).public.points,
            final(self).private.selected_destination_cards == old(self).private.selected_destination_cards,
    {
        let (train_cards, destination_cards) = card_dealer.initial_draw();
        let mut i: usize = 0;
        while i < train_cards.len()
            invariant
                i <= train_cards@.len() == 4,
                self.wf(),
                self.public.num_train_cards == old(self).public.num_train_cards + i,
                old(self).public.num_train_cards <= 250,
                hand_cards(self.private.pending_destination_cards).len() == 0,
                self.public.id == old(self).public.id,
                self.public.turn_actions == old(self).public.turn_actions,
                self.public.cars == old(self).public.cars,
                self.public.points == old(self).public.points,
                self.private.selected_destination_cards == old(self).private.selected_destination_cards,
            decreases train_cards@.len() - i,
        {
            self.add_train_card(train_cards[i]);
            i = i + 1;
        }
        self.private.pending_destination_cards = destination_cards;
    }

    /// The player's id.
    pub fn id(&self) -> (r: usize)
        ensures
            r == self.public.id,
    {
        self.public.id
    }

    /// Changes the player's name.
    pub fn change_name(&mut self, name: String)
        requires
            old(self).wf(),
        ensures
            final(self).wf(),
            final(self).public.name == name,
            final(self).private == old(self).private,
            final(self).public.num_train_cards == old(self).public.num_train_cards,
            final(self).public.id == old(self).public.id,
            final(self).public.color == old(self).public.color,
            final(self).public.is_ready == old(self).public.is_ready,
    {
        self.public.name = name;
    }

    /// The player's name.
    pub fn name(&self) -> (r: &str)
        ensures
            r@ == self.public.name@,
    {
        self.public.name.as_str()
    }

    /// Changes the player's color.
    pub fn change_color(&mut self, color: PlayerColor)
        requires
            old(self).wf(),
        ensures
            final(self).wf(),
            final(self).public.color == color,
            final(self).private == old(self).private,
            final(self).public.num_train_cards == old(self).public.num_train_cards,
            final(self).public.id == old(self).public.id,
            final(self).public.name == old(self).public.name,
            final(self).public.is_ready == old(self).public.is_ready,
    {
        self.public.color = color;
    }

    /// The player's color.
    pub fn color(&self) -> (r: PlayerColor)
        ensures
            r == self.public.color,
    {
        self.public.color
    }

    /// Sets whether the player is ready to start the game.
    pub fn set_ready(&mut self, is_ready: bool)
        requires
            old(self).wf(),
        ensures
            final(self).wf(),
            final(self).public.is_ready == is_ready,
            final(self).public.id == old(self).public.id,
            final(self).public.name == old(self).public.name,
            final(self).public.color == old(self).public.color,
            final(self).public.num_train_cards == old(self).public.num_train_cards,
            final(self).private.pending_destination_cards == old(self).private.pending_destination_cards,
    {
        self.public.is_ready = is_ready;
    }

    /// Whether the player is ready to start the game.
    pub fn ready(&self) -> (r: bool)
        ensures
            r == self.public.is_ready,
    {
        self.public.is_ready
    }

    /// How many cars the player has left.
    pub fn cars(&self) -> (r: u8)
        ensures
            r == self.public.cars,
    {
        self.public.cars
    }

    /// Marks the player as done with their last turn.
    pub fn set_done_playing(&mut self)
        requires
            old(self).wf(),
        ensures
            final(self).wf(),
            final(self).public.is_done_playing,
            final(self).private == old(self).private,
            final(self).public.num_train_cards == old(self).public.num_train_cards,
            final(self).public.id == old(self).public.id,
            final(self).public.cars == old(self).public.cars,
            final(self).public.points == old(self).public.points,
            final(self).public.claimed_routes == old(self).public.claimed_routes,
            final(self).private.selected_destination_cards == old(self).private.selected_destination_cards,
    {
        self.public.is_done_playing = true;
    }

    /// Sets whether the player holds the longest route.
    pub fn set_has_longest_route(&mut self, has_longest_route: bool)
        ensures
            final(self).public.has_longest_route == Some(has_longest_route),
            final(self).public.id == old(self).public.id,
            final(self).public.cars == old(self).public.cars,
            final(self).public.points == old(self).public.points,
            final(self).public.is_done_playing == old(self).public.is_done_playing,
            final(self).public.num_train_cards == old(self).public.num_train_cards,
            final(self).public.cars == old(self).public.cars,
            final(self).public.claimed_routes == old(self).public.claimed_routes,
            final(self).private == old(self).private,
    {
        self.public.has_longest_route = Some(has_longest_route);
    }

    /// The player's public state.
    pub fn get_public_state(&self) -> (r: &PublicPlayerState)
        ensures
            *r == self.public,
    {
        &self.public
    }

    /// Mutable access to the player's public state.
    pub fn get_mut_public_state(&mut self) -> (r: &mut PublicPlayerState)
        ensures
            *r == old(self).public,
            final(self).public == *final(r),
            final(self).private == old(self).private,
    {
        &mut self.public
    }

    /// The player's private state.
    pub fn get_private_state(&self) -> (r: &PrivatePlayerState)
        ensures
            *r == self.private,
    {
        &self.private
    }

    fn replace_turn_action(&mut self, turn: usize, action: PlayerAction, description: String)
        ensures
            final(self).public.turn_actions.turn == Some(turn),
            final(self).public.turn_actions.actions@ == seq![action],
            final(self).public.turn_actions.description@ == seq![description],
            final(self).private == old(self).private,
            final(self).public.id == old(self).public.id,
            final(self).public.name == old(self).public.name,
            final(self).public.cars == old(self).public.cars,
            final(self).public.points == old(self).public.points,
            final(self).public.num_train_cards == old(self).public.num_train_cards,
            final(self).public.claimed_routes == old(self).public.claimed_routes,
    {
        self.public.turn_actions.turn = Some(turn);
        self.public.turn_actions.actions = Vec::new();
        self.public.turn_actions.actions.push(action);
        self.public.turn_actions.description = Vec::new();
        self.public.turn_actions.description.push(description);
    }

    fn append_turn_action(&mut self, action: PlayerAction, description: String)
        ensures
            final(self).public.turn_actions.turn == old(self).public.turn_actions.turn,
            final(self).public.turn_actions.actions@ == old(self).public.turn_actions.actions@.push(
                action,
            ),
            final(self).public.turn_actions.description@ == old(self).public.turn_actions.description@.push(description),
            final(self).private == old(self).private,
            final(self).public.id == old(self).public.id,
            final(self).public.name == old(self).public.name,
            final(self).public.cars == old(self).public.cars,
            final(self).public.points == old(self).public.points,
            final(self).public.num_train_cards == old(self).public.num_train_cards,
            final(self).public.claimed_routes == old(self).public.claimed_routes,
    {
        self.public.turn_actions.actions.push(action);
        self.public.turn_actions.description.push(description);
    }

    /// Why the player may not claim the route with the given cards at the given turn, if
    /// they may not.
    pub open spec fn claim_route_error(
        &self,
        route: CityToCity,
        parallel_route_index: int,
        cards: Seq<TrainColor>,
        turn: usize,
        map: GameMap,
    ) -> Option<Seq<char>> {
        let w = num_wild(cards);
        let n = num_non_wild(cards);
        let c = first_real_color(cards).unwrap();
        if self.acted_in(turn) {
            Some(
                "Cannot claim route if you have drawn a train card or destination cards this turn."@,
            )
        } else if cards.len() > self.public.cars {
            Some(
                "Cannot claim route from "@ + city_name(route.0) + " to "@ + city_name(route.1)
                    + " with "@ + decimal(cards.len()) + " cards, whilst having only "@ + decimal(
                    self.public.cars as nat,
                ) + " cars left."@,
            )
        } else if w > 0 && self.count_of(TrainColor::Wild) < w {
            Some(
                "Cannot claim a route using "@ + decimal(w) + " wild cards, whilst having only "@
                    + decimal(self.count_of(TrainColor::Wild) as nat) + " left."@,
            )
        } else if n > 0 && self.count_of(c) < n {
            Some(
                "Cannot claim a route using "@ + decimal(n) + " "@ + train_color_name(c)
                    + " cards, whilst having only "@ + decimal(self.count_of(c) as nat) + " left."@,
            )
        } else {
            map.claim_error(route, parallel_route_index, cards, self.public.id)
        }
    }

    /// Tries to claim a route with the given cards.
    ///
    /// Fails if the player already acted this turn, has fewer cars than cards, holds fewer
    /// wild cards or cards of the hand's color than the hand, or if the map refuses the
    /// claim. Otherwise the route is claimed, the cards go to the dealer's discarded deck,
    /// the player gains the route's points and loses its length in cars, and the turn ends.
    pub fn claim_route(
        &mut self,
        route: CityToCity,
        parallel_route_index: usize,
        cards: Vec<TrainColor>,
        turn: usize,
        map: &mut GameMap,
        card_dealer: &mut CardDealer,
    ) -> (r: ActionResult)
        requires
            old(self).wf(),
            old(map).wf(),
            old(card_dealer).wf(),
            old(card_dealer).census().len() + 6 <= usize::MAX - 8,
        ensures
            final(self).wf(),
            final(map).wf(),
            final(card_dealer).wf(),
            final(map).parallel_allowed() == old(map).parallel_allowed(),
            final(self).public.id == old(self).public.id,
            match r {
                Ok(turn_over) => {
                    let k = lookup(old(map).routes(), route.0, route.1).unwrap();
                    let length = segment(old(map).routes()[k], parallel_route_index as int).length;
                    let w = num_wild(cards@);
                    let n = num_non_wild(cards@);
                    let c = first_real_color(cards@).unwrap();
                    &&& turn_over
                    &&& old(self).claim_route_error(
                        route,
                        parallel_route_index as int,
                        cards@,
                        turn,
                        *old(map),
                    ) is None
                    &&& final(map).routes() == old(map).routes().update(
                        k,
                        crate::map::with_claimer(
                            old(map).routes()[k],
                            parallel_route_index as int,
                            old(self).public.id,
                        ),
                    )
                    &&& final(self).public.claimed_routes@ == old(self).public.claimed_routes@.push(
                        ClaimedRoute { route, parallel_route_index, length },
                    )
                    &&& final(self).public.points == old(self).public.points + points_for_length(
                        length as int,
                    )
                    &&& final(self).public.cars == old(self).public.cars - length
                    &&& final(self).public.num_train_cards == old(self).public.num_train_cards
                        - cards@.len()
                    &&& final(self).count_of(TrainColor::Wild) == old(self).count_of(
                        TrainColor::Wild,
                    ) - w
                    &&& n > 0 ==> final(self).count_of(c) == old(self).count_of(c) - n
                    &&& forall|d: TrainColor|
                        d != TrainColor::Wild && (n == 0 || d != c) ==> #[trigger] final(self).count_of(d) == old(self).count_of(d)
                    &&& final(self).public.turn_actions.turn == Some(turn)
                    &&& final(self).public.turn_actions.actions@ == seq![PlayerAction::ClaimedRoute]
                    &&& final(self).public.turn_actions.description@.len() == 1
                    &&& final(self).public.turn_actions.description@[0]@
                        == claimed_route_description(old(self).public.name@, route, length, cards@)
                    &&& final(card_dealer).census() == old(card_dealer).census().add(
                        cards@.to_multiset(),
                    )
                },
                Err(e) => {
                    &&& old(self).claim_route_error(
                        route,
                        parallel_route_index as int,
                        cards@,
                        turn,
                        *old(map),
                    ) == Some(e@)
                    &&& *final(self) == *old(self)
                    &&& final(map).routes() == old(map).routes()
                    &&& *final(card_dealer) == *old(card_dealer)
                },
            },
    {
        if self.public.turn_actions.turn == Some(turn) {
            return Err(
                String::from_str(
                    "Cannot claim route if you have drawn a train card or destination cards this turn.",
                ),
            );
        }
        if cards.len() > self.public.cars as usize {
            let mut msg = String::from_str("Cannot claim route from ");
            msg.append(route.0.to_string().as_str());
            msg.append(" to ");
            msg.append(route.1.to_string().as_str());
            msg.append(" with ");
            msg.append(usize_to_string(cards.len()).as_str());
            msg.append(" cards, whilst having only ");
            msg.append(usize_to_string(self.public.cars as usize).as_str());
            msg.append(" cars left.");
            return Err(msg);
        }
        let (num_wild_cards, num_non_wild_cards, color) = count_hand(&cards);
        let wild_index = TrainColor::Wild.index();
        let inventory_wild_cards = self.private.train_cards[wild_index];
        if num_wild_cards > 0 && (inventory_wild_cards as usize) < num_wild_cards {
            let mut msg = String::from_str("Cannot claim a route using ");
            msg.append(usize_to_string(num_wild_cards).as_str());
            msg.append(" wild cards, whilst having only ");
            msg.append(usize_to_string(inventory_wild_cards as usize).as_str());
            msg.append(" left.");
            return Err(msg);
        }
        if let Some(c) = color {
            let inventory = self.private.train_cards[c.index()];
            if (inventory as usize) < num_non_wild_cards {
                let mut msg = String::from_str("Cannot claim a route using ");
                msg.append(usize_to_string(num_non_wild_cards).as_str());
                msg.append(" ");
                msg.append(c.to_string().as_str());
                msg.append(" cards, whilst having only ");
                msg.append(usize_to_string(inventory as usize).as_str());
                msg.append(" left.");
                return Err(msg);
            }
        }
        let claimed_route = match map.claim_route_for_player(
            route,
            parallel_route_index,
            &cards,
            self.public.id,
        ) {
            Ok(claimed_route) => claimed_route,
            Err(e) => return Err(e),
        };
        let ghost k = lookup(old(map).routes(), route.0, route.1).unwrap();
        proof {
            crate::map::lemma_lookup_symmetric(old(map).routes(), route.0, route.1);
            assert(1 <= old(map).routes()[k].first.length <= 6);
        }
        let length = claimed_route.length;
        let description = self.claimed_route_message(route, length, &cards, num_wild_cards, num_non_wild_cards, color);
        self.replace_turn_action(turn, PlayerAction::ClaimedRoute, description);
        let ghost counts = self.private.train_cards@;
        proof {
            lemma_first_real_color(cards@);
            lemma_sum_counts_update(counts, wild_index as int, (inventory_wild_cards - num_wild_cards) as u8);
        }
        self.private.train_cards.set(wild_index, inventory_wild_cards - num_wild_cards as u8);
        self.public.num_train_cards = self.public.num_train_cards - num_wild_cards as u8;
        if let Some(c) = color {
            let j = c.index();
            let inventory = self.private.train_cards[j];
            proof {
                lemma_sum_counts_update(self.private.train_cards@, j as int, (inventory - num_non_wild_cards) as u8);
            }
            self.private.train_cards.set(j, inventory - num_non_wild_cards as u8);
            self.public.num_train_cards = self.public.num_train_cards - num_non_wild_cards as u8;
        }
        self.public.points = self.public.points
            + GameMap::calculate_points_for_claimed_route(length) as i32;
        self.public.cars = self.public.cars - length;
        let ghost claimed_before = self.public.claimed_routes@;
        self.public.claimed_routes.push(claimed_route);
        proof {
            assert(cards@.len() == length);
            assert(self.public.claimed_routes@.drop_last() =~= claimed_before);
        }
        card_dealer.discard_train_cards(cards);
        Ok(true)
    }

    fn claimed_route_message(
        &self,
        route: CityToCity,
        length: u8,
        cards: &Vec<TrainColor>,
        num_wild_cards: usize,
        num_non_wild_cards: usize,
        color: Option<TrainColor>,
    ) -> (r: String)
        requires
            1 <= length <= 6,
            num_wild_cards == num_wild(cards@),
            num_non_wild_cards == num_non_wild(cards@),
            color == first_real_color(cards@),
            num_non_wild_cards > 0 <==> color is Some,
        ensures
            r@ == claimed_route_description(self.public.name@, route, length, cards@),
    {
        let mut used = String::new();
        if num_non_wild_cards > 0 {
            let c = color.unwrap();
            if num_wild_cards > 0 {
                used.append(usize_to_string(num_wild_cards).as_str());
                used.append(" wild cards and ");
            }
            used.append(usize_to_string(num_non_wild_cards).as_str());
            used.append(" ");
            used.append(c.to_string().as_str());
            used.append(" cards");
        } else {
            used.append(usize_to_string(num_wild_cards).as_str());
            used.append(" wild cards");
        }
        let mut msg = String::from_str(self.public.name.as_str());
        msg.append(" has claimed a route between ");
        msg.append(route.0.to_string().as_str());
        msg.append(" and ");
        msg.append(route.1.to_string().as_str());
        msg.append(" of length ");
        msg.append(usize_to_string(length as usize).as_str());
        msg.append(" (");
        msg.append(usize_to_string(GameMap::calculate_points_for_claimed_route(length) as usize).as_str());
        msg.append(" points). They did so using ");
        msg.append(used.as_str());
        msg.append(".");
        proof {
            assert(used@ == cards_used_description(cards@));
        }
        msg
    }

    /// Why the player may not draw the open train card at `card_index` in the given turn,
    /// if they may not.
    pub open spec fn open_card_draw_error(
        &self,
        card_dealer: CardDealer,
        card_index: int,
        turn: usize,
    ) -> Option<Seq<char>> {
        if self.acted_in(turn) && self.started_with_destinations() {
            Some("Cannot draw a train card after having already drawn destination cards this turn."@)
        } else {
            card_dealer.open_draw_error(card_index, self.acted_in(turn))
        }
    }

    /// Why the player may not draw from the close deck in the given turn, if they may not.
    pub open spec fn close_card_draw_error(&self, card_dealer: CardDealer, turn: usize) -> Option<
        Seq<char>,
    > {
        if self.acted_in(turn) && self.started_with_destinations() {
            Some("Cannot draw a train card after having already drawn destination cards this turn."@)
        } else if card_dealer.close_train_card_deck@.len() == 0 {
            Some("There is no cards left in the close train card deck."@)
        } else {
            None
        }
    }

    /// Why the player may not draw destination cards in the given turn, if they may not.
    pub open spec fn destination_draw_error(&self, card_dealer: CardDealer, turn: usize) -> Option<
        Seq<char>,
    > {
        if self.acted_in(turn) {
            Some("Cannot draw destination cards if you have drawn a train card this turn."@)
        } else if card_dealer.destination_card_deck@.len() == 0 {
            Some("Cannot draw from the destination card deck, as it is empty."@)
        } else {
            None
        }
    }

    /// Tries to draw the train card at slot `card_index` of the open deck.
    ///
    /// Fails if destination cards were drawn first this turn, or if the dealer refuses the
    /// draw. The turn is over after a wild card, after a second draw, or when nothing is left
    /// that could be drawn.
    pub fn draw_open_train_card(&mut self, card_index: usize, turn: usize, card_dealer: &mut CardDealer) -> (r:
        ActionResult)
        requires
            old(self).wf(),
            old(self).public.num_train_cards < 255,
            old(card_dealer).wf(),
        ensures
            final(self).wf(),
            final(card_dealer).wf(),
            final(self).public.id == old(self).public.id,
            final(self).public.cars == old(self).public.cars,
            final(self).public.claimed_routes == old(self).public.claimed_routes,
            match r {
                Err(e) => old(self).open_card_draw_error(*old(card_dealer), card_index as int, turn)
                    == Some(e@),
                Ok(_) => old(self).open_card_draw_error(*old(card_dealer), card_index as int, turn)
                    is None,
            },
            match r {
                Err(e) => {
                    &&& if old(self).acted_in(turn) && old(self).started_with_destinations() {
                        e@ == "Cannot draw a train card after having already drawn destination cards this turn."@
                    } else {
                        old(card_dealer).open_draw_error(card_index as int, old(self).acted_in(turn))
                            == Some(e@)
                    }
                    &&& *final(self) == *old(self)
                    &&& final(card_dealer).same_as(old(card_dealer))
                },
                Ok(turn_over) => {
                    let card = open_slots(old(card_dealer).open_train_card_deck)[card_index as int].unwrap();
                    let second = old(self).acted_in(turn);
                    &&& !(second && old(self).started_with_destinations())
                    &&& old(card_dealer).open_draw_error(card_index as int, second) is None
                    &&& final(card_dealer).census().insert(card) == old(card_dealer).census()
                    &&& final(self).public.num_train_cards == old(self).public.num_train_cards + 1
                    &&& final(self).count_of(card) == old(self).count_of(card) + 1
                    &&& turn_over == (card == TrainColor::Wild || second
                        || !final(card_dealer).can_draw_again())
                    &&& final(self).public.turn_actions.turn == Some(turn)
                    &&& final(self).public.turn_actions.actions@ == if card == TrainColor::Wild {
                        seq![PlayerAction::DrewOpenWildTrainCard]
                    } else if second {
                        old(self).public.turn_actions.actions@.push(
                            PlayerAction::DrewOpenNonWildTrainCard,
                        )
                    } else {
                        seq![PlayerAction::DrewOpenNonWildTrainCard]
                    }
                    &&& final(self).public.turn_actions.description@.last()@
                        == drew_open_train_card_description(
                        old(self).public.name@,
                        card,
                        old(card_dealer).refill_needs_reshuffle(card_index as int, card),
                    )
                },
            },
    {
        let second = match self.public.turn_actions.turn {
            Some(last_turn) => last_turn == turn,
            None => false,
        };
        if second && self.public.turn_actions.actions.len() > 0
            && self.public.turn_actions.actions[0] == PlayerAction::DrewDestinationCards {
            return Err(
                String::from_str(
                    "Cannot draw a train card after having already drawn destination cards this turn.",
                ),
            );
        }
        let (card, reshuffled) = match card_dealer.draw_from_open_train_card_deck(card_index, second) {
            Ok(drawn) => drawn,
            Err(e) => return Err(e),
        };
        self.add_train_card(card);
        let mut description = String::from_str(self.public.name.as_str());
        description.append(" drew a ");
        description.append(card.to_string().as_str());
        if reshuffled {
            description.append(
                " train card from the open deck. The open deck was then re-shuffled because there were three wild cards.",
            );
        } else {
            description.append(" train card from the open deck.");
        }
        if card.is_wild() {
            self.replace_turn_action(turn, PlayerAction::DrewOpenWildTrainCard, description);
            Ok(true)
        } else if second {
            self.append_turn_action(PlayerAction::DrewOpenNonWildTrainCard, description);
            Ok(true)
        } else {
            self.replace_turn_action(turn, PlayerAction::DrewOpenNonWildTrainCard, description);
            Ok(!card_dealer.can_player_draw_again_this_turn())
        }
    }

    /// Tries to draw the top train card of the close deck.
    ///
    /// Fails if destination cards were drawn first this turn, or if the close deck is empty.
    /// The turn is over after a second draw, or when nothing is left that could be drawn.
    pub fn draw_close_train_card(&mut self, turn: usize, card_dealer: &mut CardDealer) -> (r: ActionResult)
        requires
            old(self).wf(),
            old(self).public.num_train_cards < 255,
            old(card_dealer).wf(),
        ensures
            final(self).wf(),
            final(card_dealer).wf(),
            final(self).public.id == old(self).public.id,
            final(self).public.cars == old(self).public.cars,
            final(self).public.claimed_routes == old(self).public.claimed_routes,
            match r {
                Err(e) => old(self).close_card_draw_error(*old(card_dealer), turn) == Some(e@),
                Ok(_) => old(self).close_card_draw_error(*old(card_dealer), turn) is None,
            },
            match r {
                Err(e) => {
                    &&& if old(self).acted_in(turn) && old(self).started_with_destinations() {
                        e@ == "Cannot draw a train card after having already drawn destination cards this turn."@
                    } else {
                        &&& old(card_dealer).close_train_card_deck@.len() == 0
                        &&& e@ == "There is no cards left in the close train card deck."@
                    }
                    &&& *final(self) == *old(self)
                    &&& final(card_dealer).same_as(old(card_dealer))
                },
                Ok(turn_over) => {
                    let card = old(card_dealer).close_train_card_deck@.last();
                    let second = old(self).acted_in(turn);
                    &&& !(second && old(self).started_with_destinations())
                    &&& old(card_dealer).close_train_card_deck@.len() > 0
                    &&& final(card_dealer).census().insert(card) == old(card_dealer).census()
                    &&& final(self).public.num_train_cards == old(self).public.num_train_cards + 1
                    &&& final(self).count_of(card) == old(self).count_of(card) + 1
                    &&& turn_over == (second || !final(card_dealer).can_draw_again())
                    &&& final(self).public.turn_actions.turn == Some(turn)
                    &&& final(self).public.turn_actions.actions@ == if second {
                        old(self).public.turn_actions.actions@.push(PlayerAction::DrewCloseTrainCard)
                    } else {
                        seq![PlayerAction::DrewCloseTrainCard]
                    }
                    &&& final(self).public.turn_actions.description@.last()@ == old(self).public.name@ + " drew a train card from the close deck."@
                },
            },
    {
        let second = match self.public.turn_actions.turn {
            Some(last_turn) => last_turn == turn,
            None => false,
        };
        if second && self.public.turn_actions.actions.len() > 0
            && self.public.turn_actions.actions[0] == PlayerAction::DrewDestinationCards {
            return Err(
                String::from_str(
                    "Cannot draw a train card after having already drawn destination cards this turn.",
                ),
            );
        }
        let card = match card_dealer.draw_from_close_train_card_deck() {
            Ok(card) => card,
            Err(e) => return Err(e),
        };
        self.add_train_card(card);
        let mut description = String::from_str(self.public.name.as_str());
        description.append(" drew a train card from the close deck.");
        if second {
            self.append_turn_action(PlayerAction::DrewCloseTrainCard, description);
            Ok(true)
        } else {
            self.replace_turn_action(turn, PlayerAction::DrewCloseTrainCard, description);
            Ok(!card_dealer.can_player_draw_again_this_turn())
        }
    }

    /// Tries to draw destination cards: up to three, kept pending until the player selects
    /// which to keep. Fails if the player already acted this turn or the deck is empty. The
    /// turn is not over.
    pub fn draw_destination_cards(&mut self, turn: usize, card_dealer: &mut CardDealer) -> (r: ActionResult)
        requires
            old(self).wf(),
        ensures
            final(self).wf(),
            final(self).public.id == old(self).public.id,
            final(self).public.cars == old(self).public.cars,
            final(self).public.num_train_cards == old(self).public.num_train_cards,
            final(card_dealer).open_train_card_deck == old(card_dealer).open_train_card_deck,
            final(card_dealer).close_train_card_deck == old(card_dealer).close_train_card_deck,
            final(card_dealer).discarded_train_card_deck == old(card_dealer).discarded_train_card_deck,
            final(self).public.claimed_routes == old(self).public.claimed_routes,
            final(self).private.train_cards == old(self).private.train_cards,
            final(self).private.selected_destination_cards == old(self).private.selected_destination_cards,
            match r {
                Err(e) => old(self).destination_draw_error(*old(card_dealer), turn) == Some(e@),
                Ok(_) => old(self).destination_draw_error(*old(card_dealer), turn) is None,
            },
            match r {
                Err(e) => {
                    &&& if old(self).acted_in(turn) {
                        e@ == "Cannot draw destination cards if you have drawn a train card this turn."@
                    } else {
                        &&& old(card_dealer).destination_card_deck@.len() == 0
                        &&& e@ == "Cannot draw from the destination card deck, as it is empty."@
                    }
                    &&& *final(self) == *old(self)
                    &&& final(card_dealer).destination_card_deck@ == old(card_dealer).destination_card_deck@
                },
                Ok(turn_over) => {
                    let deck = old(card_dealer).destination_card_deck@;
                    let n = if deck.len() < 3 {
                        deck.len() as int
                    } else {
                        3
                    };
                    &&& !turn_over
                    &&& !old(self).acted_in(turn)
                    &&& hand_cards(final(self).private.pending_destination_cards).len() == n
                    &&& forall|j: int|
                        0 <= j < n ==> #[trigger] hand_cards(final(self).private.pending_destination_cards)[j]
                            == deck[deck.len() - 1 - j]
                    &&& final(card_dealer).destination_card_deck@ == deck.subrange(
                        0,
                        deck.len() - n,
                    )
                    &&& final(self).public.turn_actions.turn == Some(turn)
                    &&& final(self).public.turn_actions.actions@ == seq![
                        PlayerAction::DrewDestinationCards,
                    ]
                    &&& final(self).public.turn_actions.description@.len() == 1
                    &&& final(self).public.turn_actions.description@[0]@ == old(self).public.name@ + " drew "@ + decimal(n as nat)
                        + " destination cards. They have not selected which to keep yet."@
                },
            },
    {
        if self.public.turn_actions.turn == Some(turn) {
            return Err(
                String::from_str(
                    "Cannot draw destination cards if you have drawn a train card this turn.",
                ),
            );
        }
        let destination_cards = match card_dealer.draw_from_destination_card_deck() {
            Ok(cards) => cards,
            Err(e) => return Err(e),
        };
        let mut description = String::from_str(self.public.name.as_str());
        description.append(" drew ");
        description.append(usize_to_string(destination_cards.len()).as_str());
        description.append(" destination cards. They have not selected which to keep yet.");
        self.private.pending_destination_cards = destination_cards;
        self.replace_turn_action(turn, PlayerAction::DrewDestinationCards, description);
        Ok(false)
    }

    /// Why the player may not select destination cards with the given decisions, if they
    /// may not; `turn` is `None` for the initial selection, before turns have started.
    pub open spec fn select_error(&self, decisions: Seq<bool>, turn: Option<usize>) -> Option<
        Seq<char>,
    > {
        let pending = hand_cards(self.private.pending_destination_cards);
        let min: nat = if turn is Some {
            1
        } else {
            2
        };
        if decisions.len() != pending.len() {
            Some(
                "Submitted "@ + decimal(decisions.len()) + " destination cards decisions, but "@
                    + decimal(pending.len()) + " were drawn."@,
            )
        } else if turn is Some && self.public.turn_actions.turn != turn {
            Some("Cannot select destination cards before having drawn destination cards first."@)
        } else if turn is Some && !self.started_with_destinations() {
            Some("Cannot select destination cards after having drawn a train card."@)
        } else if num_selected(decisions) < min {
            Some(
                "Cannot select only "@ + decimal(num_selected(decisions))
                    + " destination cards, whilst the minimum is "@ + decimal(min) + "."@,
            )
        } else {
            None
        }
    }

    /// Tries to keep the pending destination cards whose decision is `true`, and return the
    /// others to the dealer.
    ///
    /// The decisions must be as many as the pending cards. At least two must be kept in the
    /// initial selection (`turn` is `None`), at least one otherwise, and then only after
    /// drawing destination cards first in the same turn. The turn is over.
    pub fn select_destination_cards(
        &mut self,
        destination_cards_decisions: Vec<bool>,
        turn: Option<usize>,
        card_dealer: &mut CardDealer,
    ) -> (r: ActionResult)
        requires
            old(self).wf(),
        ensures
            final(self).wf(),
            final(self).public.id == old(self).public.id,
            final(self).public.cars == old(self).public.cars,
            final(self).public.num_train_cards == old(self).public.num_train_cards,
            final(self).public.turn_actions.turn == old(self).public.turn_actions.turn,
            final(self).public.claimed_routes == old(self).public.claimed_routes,
            final(self).private.train_cards == old(self).private.train_cards,
            final(card_dealer).open_train_card_deck == old(card_dealer).open_train_card_deck,
            final(card_dealer).close_train_card_deck == old(card_dealer).close_train_card_deck,
            final(card_dealer).discarded_train_card_deck == old(card_dealer).discarded_train_card_deck,
            match r {
                Err(e) => {
                    &&& old(self).select_error(destination_cards_decisions@, turn) == Some(e@)
                    &&& *final(self) == *old(self)
                    &&& final(card_dealer).destination_card_deck@ == old(card_dealer).destination_card_deck@
                },
                Ok(turn_over) => {
                    let pending = hand_cards(old(self).private.pending_destination_cards);
                    let d = destination_cards_decisions@;
                    let returned = picked(pending, d, false, pending.len() as int);
                    &&& turn_over
                    &&& old(self).select_error(d, turn) is None
                    &&& hand_cards(final(self).private.pending_destination_cards).len() == 0
                    &&& final(self).private.selected_destination_cards@ == old(self).private.selected_destination_cards@ + picked(
                        pending,
                        d,
                        true,
                        pending.len() as int,
                    )
                    &&& final(card_dealer).destination_card_deck@.len() == old(card_dealer).destination_card_deck@.len() + returned.len()
                    &&& forall|j: int|
                        0 <= j < returned.len() ==> #[trigger] final(card_dealer).destination_card_deck@[j] == returned[returned.len() - 1 - j]
                    &&& final(card_dealer).destination_card_deck@.subrange(
                        returned.len() as int,
                        final(card_dealer).destination_card_deck@.len() as int,
                    ) == old(card_dealer).destination_card_deck@
                    &&& final(self).public.turn_actions.actions@ == old(self).public.turn_actions.actions@.push(PlayerAction::SelectedDestinationCards)
                    &&& final(self).public.turn_actions.description@.last()@ == old(self).public.name@ + " selected "@ + decimal(num_selected(d)) + " destination cards out of "@
                        + decimal(pending.len()) + "."@
                },
            },
    {
        let num_decisions = destination_cards_decisions.len();
        let num_pending = self.private.pending_destination_cards.len();
        if num_decisions != num_pending {
            let mut msg = String::from_str("Submitted ");
            msg.append(usize_to_string(num_decisions).as_str());
            msg.append(" destination cards decisions, but ");
            msg.append(usize_to_string(num_pending).as_str());
            msg.append(" were drawn.");
            return Err(msg);
        }
        let min_to_select: usize = match turn {
            Some(t) => {
                if self.public.turn_actions.turn != Some(t) {
                    return Err(
                        String::from_str(
                            "Cannot select destination cards before having drawn destination cards first.",
                        ),
                    );
                }
                if !(self.public.turn_actions.actions.len() > 0
                    && self.public.turn_actions.actions[0] == PlayerAction::DrewDestinationCards) {
                    return Err(
                        String::from_str(
                            "Cannot select destination cards after having drawn a train card.",
                        ),
                    );
                }
                1
            },
            None => 2,
        };
        let num = count_selected(&destination_cards_decisions);
        if num < min_to_select {
            let mut msg = String::from_str("Cannot select only ");
            msg.append(usize_to_string(num).as_str());
            msg.append(" destination cards, whilst the minimum is ");
            msg.append(usize_to_string(min_to_select).as_str());
            msg.append(".");
            return Err(msg);
        }
        let mut description = String::from_str(self.public.name.as_str());
        description.append(" selected ");
        description.append(usize_to_string(num).as_str());
        description.append(" destination cards out of ");
        description.append(usize_to_string(num_pending).as_str());
        description.append(".");
        self.append_turn_action(PlayerAction::SelectedDestinationCards, description);
        let ghost pending = hand_cards(self.private.pending_destination_cards);
        let ghost public_after = self.public;
        let ghost d = destination_cards_decisions@;
        let ghost selected = self.private.selected_destination_cards@;
        let mut discarded = DestinationHand::new();
        let mut i: usize = num_pending;
        while i > 0
            invariant
                i <= num_pending == pending.len() == d.len(),
                hand_cards(self.private.pending_destination_cards) == pending,
                destination_cards_decisions@ == d,
                selected + picked(pending, d, true, pending.len() as int)
                    == self.private.selected_destination_cards@ + picked(pending, d, true, i as int),
                hand_cards(discarded).len() + i <= num_pending,
                picked(pending, d, false, pending.len() as int) == hand_cards(discarded) + picked(
                    pending,
                    d,
                    false,
                    i as int,
                ),
                self.public == public_after,
                self.private.train_cards == old(self).private.train_cards,
            decreases i,
        {
            let card = self.private.pending_destination_cards.get(i - 1);
            if destination_cards_decisions[i - 1] {
                proof {
                    assert(self.private.selected_destination_cards@.push(card) + picked(pending, d, true, i - 1)
                        =~= self.private.selected_destination_cards@ + picked(pending, d, true, i as int));
                }
                self.private.selected_destination_cards.push(card);
            } else {
                proof {
                    assert(hand_cards(discarded).push(card) + picked(pending, d, false, i - 1)
                        =~= hand_cards(discarded) + picked(pending, d, false, i as int));
                }
                discarded.push(card);
            }
            i = i - 1;
        }
        proof {
            assert(self.private.selected_destination_cards@ + picked(pending, d, true, 0)
                =~= self.private.selected_destination_cards@);
            assert(hand_cards(discarded) + picked(pending, d, false, 0) =~= hand_cards(discarded));
        }
        self.private.pending_destination_cards = DestinationHand::new();
        card_dealer.discard_destination_cards(discarded);
        Ok(true)
    }

    /// The player's state as seen by player `player_id`: the private part only if it is
    /// this player.
    pub fn get_player_state(&self, player_id: usize) -> (r: PlayerState<'_>)
        ensures
            *r.public_player_state == self.public,
            r.private_player_state is Some <==> player_id == self.public.id,
            r.private_player_state matches Some(p) ==> *p == self.private,
    {
        let private_player_state = if self.public.id == player_id {
            Some(&self.private)
        } else {
            None
        };
        PlayerState { public_player_state: &self.public, private_player_state }
    }

    /// End-of-game scoring: each selected destination card adds its points if the player
    /// connected its cities, and subtracts them otherwise. Returns the length of the
    /// player's longest route.
    pub fn finalize(&mut self, map: &GameMap) -> (r: u16)
        requires
            old(self).wf(),
            old(self).private.selected_destination_cards@.len() <= 100000,
        ensures
            is_longest(old(self).public.claimed_routes@, r as nat),
            final(self).public.points == old(self).public.points + destination_score(
                map.routes(),
                old(self).public.id,
                old(self).private.selected_destination_cards@,
            ),
            final(self).public.id == old(self).public.id,
            final(self).public.is_done_playing == old(self).public.is_done_playing,
            final(self).public.num_train_cards == old(self).public.num_train_cards,
            final(self).public.cars == old(self).public.cars,
            final(self).public.claimed_routes == old(self).public.claimed_routes,
            final(self).private == old(self).private,
    {
        let ghost cards = self.private.selected_destination_cards@;
        let mut i: usize = 0;
        while i < self.private.selected_destination_cards.len()
            invariant
                i <= cards.len() <= 100000,
                self.private == old(self).private,
                cards == self.private.selected_destination_cards@,
                self.public.id == old(self).public.id,
                self.public.is_done_playing == old(self).public.is_done_playing,
                self.public.num_train_cards == old(self).public.num_train_cards,
                self.public.cars == old(self).public.cars,
                self.public.claimed_routes == old(self).public.claimed_routes,
                0 <= old(self).public.points <= 15 * 45,
                self.public.points == old(self).public.points + destination_score(
                    map.routes(),
                    self.public.id,
                    cards.subrange(0, i as int),
                ),
                -256 * (i as int) <= destination_score(
                    map.routes(),
                    self.public.id,
                    cards.subrange(0, i as int),
                ) <= 256 * (i as int),
            decreases cards.len() - i,
        {
            let card = self.private.selected_destination_cards[i];
            let fulfilled = map.has_player_fulfilled_destination(card.destination, self.public.id);
            proof {
                assert(cards.subrange(0, i + 1).drop_last() =~= cards.subrange(0, i as int));
                assert(cards.subrange(0, i + 1).last() == card);
            }
            if fulfilled {
                self.public.points = self.public.points + card.points as i32;
            } else {
                self.public.points = self.public.points - card.points as i32;
            }
            i = i + 1;
        }
        proof {
            assert(cards.subrange(0, i as int) =~= cards);
        }
        GameMap::get_longest_route(&self.public.claimed_routes)
    }
}

} // verus!
