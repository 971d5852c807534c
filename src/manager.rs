//! The manager of one game: its phase, turn, players, map and card dealer, and the rules
//! that decide which action is legal when.

use crate::card::{hand_cards, open_slots, shuffle, CardDealer, CardDealerState, TrainColor};
use crate::city::CityToCity;
use crate::map::{is_longest, lookup, segment, with_claimer, ClaimedRoute, GameMap};
use crate::player::{player_color_name, Player, PlayerColor, PlayerState};
use crate::text::{decimal, usize_to_string};
use vstd::prelude::*;

verus! {

broadcast use vstd::seq_lib::group_to_multiset_ensures, vstd::multiset::group_multiset_axioms;

/// The fewest players a game can start with.
pub const MIN_PLAYERS: usize = 2;
/// The most players a game can have.
pub const MAX_PLAYERS: usize = 5;

/// The phases of a game, the states of its state machine.
#[derive(Clone, Copy, Debug, PartialEq, Eq, Structural)]
pub enum GamePhase {
    /// Players join, change their name and color, and mark themselves as ready.
    InLobby,
    /// Players select their initial destination cards.
    Starting,
    /// The turn-based game.
    Playing,
    /// Once a player has fewer than three cars, each player plays one last turn.
    LastTurn,
    /// Every player has played their last turn.
    Done,
}

/// A game's state as seen by one player.
pub struct GameState<'a> {
    pub phase: GamePhase,
    /// The current turn; `None` until the turn-based game starts.
    pub turn: Option<usize>,
    /// The public digest of the decks; `None` until the game starts.
    pub card_dealer_state: Option<CardDealerState>,
    /// Every player's state, in turn order, with private parts for the viewer only.
    pub players_state: Vec<PlayerState<'a>>,
}

/// All actions taken through a manager have the same result: success, or why they failed.
pub type ManagerActionResult = Result<(), String>;

/// The number of train cards held by all players together.
pub open spec fn total_held(players: Seq<Player>) -> nat
    decreases players.len(),
{
    if players.len() == 0 {
        0
    } else {
        total_held(players.drop_last()) + players.last().public.num_train_cards as nat
    }
}

proof fn lemma_total_held_zero(players: Seq<Player>)
    requires
        forall|i: int| 0 <= i < players.len() ==> #[trigger] players[i].public.num_train_cards == 0,
    ensures
        total_held(players) == 0,
    decreases players.len(),
{
    if players.len() > 0 {
        lemma_total_held_zero(players.drop_last());
    }
}

proof fn lemma_total_held_update(players: Seq<Player>, i: int, p: Player)
    requires
        0 <= i < players.len(),
    ensures
        players[i].public.num_train_cards <= total_held(players),
        total_held(players.update(i, p)) == total_held(players)
            - players[i].public.num_train_cards + p.public.num_train_cards,
    decreases players.len(),
{
    let u = players.update(i, p);
    if i == players.len() - 1 {
        assert(u.drop_last() =~= players.drop_last());
    } else {
        assert(u.drop_last() =~= players.drop_last().update(i, p));
        lemma_total_held_update(players.drop_last(), i, p);
    }
}

/// The default name of a player: "Player " and the id, zero-padded to `width` digits.
pub open spec fn default_name(id: nat, width: nat) -> Seq<char> {
    let zeros: nat = if width > decimal(id).len() {
        (width - decimal(id).len()) as nat
    } else {
        0
    };
    "Player "@ + Seq::new(zeros, |i: int| '0') + decimal(id)
}

/// Whether `i` is the first position of a player with the given id.
pub open spec fn first_with_id(players: Seq<Player>, player_id: usize, i: int) -> bool {
    &&& 0 <= i < players.len()
    &&& players[i].public.id == player_id
    &&& forall|j: int| 0 <= j < i ==> #[trigger] players[j].public.id != player_id
}

/// At most one position is the first with a given id.
proof fn lemma_first_with_id_unique(players: Seq<Player>, player_id: usize, i: int, j: int)
    requires
        first_with_id(players, player_id, i),
        first_with_id(players, player_id, j),
    ensures
        i == j,
{
    if i < j {
        assert(players[i].public.id != player_id);
    } else if j < i {
        assert(players[j].public.id != player_id);
    }
}

/// Whether a player has the name.
pub open spec fn name_used(players: Seq<Player>, name: Seq<char>) -> bool {
    exists|i: int| 0 <= i < players.len() && #[trigger] players[i].public.name@ == name
}

/// With fewer values than distinct candidates, some candidate is not among the values.
proof fn lemma_pigeonhole<A>(candidates: Seq<A>, values: Seq<A>)
    requires
        candidates.no_duplicates(),
        values.len() < candidates.len(),
    ensures
        exists|k: int| 0 <= k < candidates.len() && !values.contains(#[trigger] candidates[k]),
{
    if forall|k: int| 0 <= k < candidates.len() ==> values.contains(#[trigger] candidates[k]) {
        candidates.unique_seq_to_set();
        values.lemma_cardinality_of_set();
        assert(candidates.to_set().subset_of(values.to_set()));
        vstd::set_lib::lemma_len_subset(candidates.to_set(), values.to_set());
    }
}

/// Whether a player has the color.
pub open spec fn color_used(players: Seq<Player>, color: PlayerColor) -> bool {
    exists|i: int| 0 <= i < players.len() && #[trigger] players[i].public.color == color
}

/// The colors offered to players, in the order in which they are handed out.
pub open spec fn player_color_order() -> Seq<PlayerColor> {
    seq![
        PlayerColor::Black,
        PlayerColor::Blue,
        PlayerColor::Green,
        PlayerColor::Orange,
        PlayerColor::Pink,
        PlayerColor::Red,
        PlayerColor::Yellow,
        PlayerColor::White,
    ]
}

/// In charge of a game's state, player actions and the transitions between phases.
pub struct Manager {
    pub phase: GamePhase,
    /// The current turn; `None` in the lobby and while initial destinations are selected.
    pub turn: Option<usize>,
    /// Only present once the game has started.
    pub map: Option<GameMap>,
    /// Only present once the game has started.
    pub card_dealer: Option<CardDealer>,
    /// The players; once the game has started, in turn order.
    pub players: Vec<Player>,
    /// How many players selected their initial destination cards.
    pub num_players_selected_initial_destination_cards: usize,
    /// How many players played their last turn.
    pub num_players_done_playing: usize,
}

impl Manager {
    /// The manager's state is consistent. In the lobby, a player's id is their position and
    /// nobody holds cards; once the game has started, the map and the dealer exist, and the
    /// dealer's train cards and the players' together are the game's 110 cards.
    pub open spec fn wf(&self) -> bool {
        &&& self.players@.len() <= MAX_PLAYERS
        &&& self.phase != GamePhase::Done ==> forall|i: int|
            0 <= i < self.players@.len() ==> (#[trigger] self.players@[i]).wf()
        &&& self.num_players_selected_initial_destination_cards <= self.players@.len()
        &&& self.num_players_done_playing <= self.players@.len()
        &&& self.turn is Some <==> (self.phase == GamePhase::Playing || self.phase
            == GamePhase::LastTurn || self.phase == GamePhase::Done)
        &&& self.phase == GamePhase::InLobby ==> {
            &&& self.map is None
            &&& self.card_dealer is None
            &&& forall|i: int|
                0 <= i < self.players@.len() ==> {
                    &&& (#[trigger] self.players@[i]).public.id == i
                    &&& self.players@[i].public.num_train_cards == 0
                    &&& hand_cards(self.players@[i].private.pending_destination_cards).len() == 0
                }
        }
        &&& self.phase != GamePhase::InLobby ==> {
            &&& self.players@.len() >= MIN_PLAYERS
            &&& self.map matches Some(map) && map.wf()
            &&& self.card_dealer matches Some(d) && d.wf() && d.census().len() + total_held(
                self.players@,
            ) == 110
        }
    }

    /// Creates a manager in the lobby, with no player.
    pub fn new() -> (r: Manager)
        ensures
            r.wf(),
            r.phase == GamePhase::InLobby,
            r.turn is None,
            r.map is None,
            r.card_dealer is None,
            r.players@.len() == 0,
            r.num_players_selected_initial_destination_cards == 0,
            r.num_players_done_playing == 0,
    {
        Manager {
            phase: GamePhase::InLobby,
            turn: None,
            map: None,
            card_dealer: None,
            players: Vec::new(),
            num_players_selected_initial_destination_cards: 0,
            num_players_done_playing: 0,
        }
    }

    /// The game's state as seen by player `player_id`: every player's public state, and the
    /// private state of that player only.
    pub fn get_state(&self, player_id: usize) -> (r: GameState<'_>)
        ensures
            r.phase == self.phase,
            r.turn == self.turn,
            r.card_dealer_state is Some <==> self.card_dealer is Some,
            r.card_dealer_state matches Some(s) ==> {
                let d = self.card_dealer.unwrap();
                &&& s.open_train_card_deck@ == open_slots(d.open_train_card_deck)
                &&& s.close_train_card_deck_size == d.close_train_card_deck@.len()
                &&& s.discarded_train_card_deck_size == d.discarded_train_card_deck@.len()
                &&& s.destination_card_deck_size == d.destination_card_deck@.len()
            },
            r.players_state@.len() == self.players@.len(),
            forall|i: int|
                0 <= i < self.players@.len() ==> {
                    &&& *(#[trigger] r.players_state@[i]).public_player_state
                        == self.players@[i].public
                    &&& r.players_state@[i].private_player_state is Some <==> self.players@[i].public.id
                        == player_id
                },
    {
        let card_dealer_state = match &self.card_dealer {
            Some(card_dealer) => Some(card_dealer.get_state()),
            None => None,
        };
        let mut players_state: Vec<PlayerState<'_>> = Vec::new();
        let mut i: usize = 0;
        while i < self.players.len()
            invariant
                i <= self.players@.len(),
                players_state@.len() == i,
                forall|j: int|
                    0 <= j < i ==> {
                        &&& *(#[trigger] players_state@[j]).public_player_state
                            == self.players@[j].public
                        &&& players_state@[j].private_player_state is Some
                            <==> self.players@[j].public.id == player_id
                    },
            decreases self.players@.len() - i,
        {
            players_state.push(self.players[i].get_player_state(player_id));
            i = i + 1;
        }
        GameState { phase: self.phase, turn: self.turn, card_dealer_state, players_state }
    }

    /// The number of players.
    pub fn num_players(&self) -> (r: usize)
        ensures
            r == self.players@.len(),
    {
        self.players.len()
    }

    /// The position of the player with the given id, if there is one.
    pub fn get_player_index(&self, player_id: usize) -> (r: Option<usize>)
        ensures
            match r {
                Some(i) => first_with_id(self.players@, player_id, i as int),
                None => forall|i: int|
                    0 <= i < self.players@.len() ==> #[trigger] self.players@[i].public.id
                        != player_id,
            },
    {
        let mut i: usize = 0;
        while i < self.players.len()
            invariant
                i <= self.players@.len(),
                forall|j: int| 0 <= j < i ==> #[trigger] self.players@[j].public.id != player_id,
            decreases self.players@.len() - i,
        {
            if self.players[i].public.id == player_id {
                return Some(i);
            }
            i = i + 1;
        }
        None
    }

    fn is_color_used(&self, color: PlayerColor) -> (r: bool)
        ensures
            r == color_used(self.players@, color),
    {
        let mut i: usize = 0;
        while i < self.players.len()
            invariant
                i <= self.players@.len(),
                forall|j: int| 0 <= j < i ==> #[trigger] self.players@[j].public.color != color,
            decreases self.players@.len() - i,
        {
            if self.players[i].public.color == color {
                return true;
            }
            i = i + 1;
        }
        false
    }

    fn is_name_used(&self, name: &String) -> (r: bool)
        ensures
            r == name_used(self.players@, name@),
    {
        let mut i: usize = 0;
        while i < self.players.len()
            invariant
                i <= self.players@.len(),
                forall|j: int| 0 <= j < i ==> #[trigger] self.players@[j].public.name@ != name@,
            decreases self.players@.len() - i,
        {
            if self.players[i].public.name == *name {
                return true;
            }
            i = i + 1;
        }
        false
    }

    /// The first color, in the order they are handed out, that no player has.
    fn generate_default_player_color(&self) -> (r: Option<PlayerColor>)
        ensures
            match r {
                Some(c) => exists|k: int|
                    0 <= k < 8 && player_color_order()[k] == c && !color_used(self.players@, c)
                        && (forall|m: int|
                        0 <= m < k ==> #[trigger] color_used(
                            self.players@,
                            player_color_order()[m],
                        )),
                None => forall|m: int|
                    0 <= m < 8 ==> #[trigger] color_used(self.players@, player_color_order()[m]),
            },
    {
        let mut colors: Vec<PlayerColor> = Vec::new();
        colors.push(PlayerColor::Black);
        colors.push(PlayerColor::Blue);
        colors.push(PlayerColor::Green);
        colors.push(PlayerColor::Orange);
        colors.push(PlayerColor::Pink);
        colors.push(PlayerColor::Red);
        colors.push(PlayerColor::Yellow);
        colors.push(PlayerColor::White);
        proof {
            assert(colors@ =~= player_color_order());
        }
        let mut k: usize = 0;
        while k < colors.len()
            invariant
                k <= 8,
                colors@ == player_color_order(),
                forall|m: int|
                    0 <= m < k ==> #[trigger] color_used(self.players@, player_color_order()[m]),
            decreases 8 - k,
        {
            if !self.is_color_used(colors[k]) {
                return Some(colors[k]);
            }
            k = k + 1;
        }
        None
    }

    /// The default name of player `player_id`: "Player " and the id, zero-padded to the
    /// fewest digits (up to five) that no other player's name has.
    fn generate_default_player_name(&self, player_id: usize) -> (r: Option<String>)
        ensures
            match r {
                Some(name) => exists|w: nat|
                    1 <= w <= MAX_PLAYERS && name@ == default_name(player_id as nat, w) && (forall|
                        i: int,
                    |
                        0 <= i < self.players@.len() ==> #[trigger] self.players@[i].public.name@
                            != name@),
                None => forall|w: int|
                    1 <= w <= MAX_PLAYERS ==> #[trigger] name_used(
                        self.players@,
                        default_name(player_id as nat, w as nat),
                    ),
            },
    {
        let digits = usize_to_string(player_id);
        let mut width: usize = 1;
        while width <= MAX_PLAYERS
            invariant
                1 <= width <= MAX_PLAYERS + 1,
                digits@ == decimal(player_id as nat),
                forall|w: int|
                    1 <= w < width ==> #[trigger] name_used(
                        self.players@,
                        default_name(player_id as nat, w as nat),
                    ),
            decreases MAX_PLAYERS + 1 - width,
        {
            let mut name = String::from_str("Player ");
            let mut padding: usize = digits.as_str().unicode_len();
            let mut pad: usize = 0;
            while padding < width
                invariant
                    digits@ == decimal(player_id as nat),
                    padding <= width || pad == 0,
                    padding == digits@.len() + pad,
                    name@ == "Player "@ + Seq::new(pad as nat, |i: int| '0'),
                    width <= MAX_PLAYERS,
                decreases width - padding,
            {
                name.append("0");
                proof {
                    reveal_strlit("0");
                    assert(name@ =~= "Player "@ + Seq::new((pad + 1) as nat, |i: int| '0'));
                }
                padding = padding + 1;
                pad = pad + 1;
            }
            assert(padding >= width);
            name.append(digits.as_str());
            proof {
                assert(name@ =~= default_name(player_id as nat, width as nat));
            }
            if !self.is_name_used(&name) {
                return Some(name);
            }
            width = width + 1;
        }
        None
    }

    /// Adds a player with a default name and color that no other player has, in the lobby
    /// and while fewer than five players joined. Returns the new player's id.
    pub fn add_player(&mut self) -> (r: Option<usize>)
        requires
            old(self).wf(),
        ensures
            final(self).wf(),
            final(self).phase == old(self).phase,
            old(self).phase != GamePhase::InLobby || old(self).players@.len() == MAX_PLAYERS ==> r
                is None && final(self).players@ == old(self).players@,
            old(self).phase == GamePhase::InLobby && old(self).players@.len() < MAX_PLAYERS ==> r
                is Some,
            r matches Some(id) ==> {
                &&& !final(self).players@[id as int].public.is_ready
                &&& final(self).players@[id as int].public.num_train_cards == 0
                &&& id == old(self).players@.len()
                &&& final(self).players@.len() == id + 1
                &&& final(self).players@.subrange(0, id as int) == old(self).players@
                &&& final(self).players@[id as int].public.id == id
                &&& forall|i: int|
                    0 <= i < id ==> #[trigger] old(self).players@[i].public.color != final(self).players@[id as int].public.color && old(self).players@[i].public.name@
                        != final(self).players@[id as int].public.name@
            },
    {
        if self.phase != GamePhase::InLobby || self.players.len() == MAX_PLAYERS {
            return None;
        }
        let player_id = self.players.len();
        let color = match self.generate_default_player_color() {
            Some(color) => color,
            None => {
                proof {
                    let colors = self.players@.map_values(|p: Player| p.public.color);
                    assert(player_color_order().no_duplicates());
                    lemma_pigeonhole(player_color_order(), colors);
                    let k = choose|k: int|
                        0 <= k < 8 && !colors.contains(#[trigger] player_color_order()[k]);
                    assert(color_used(self.players@, player_color_order()[k]));
                    let i = choose|i: int|
                        0 <= i < self.players@.len() && #[trigger] self.players@[i].public.color
                            == player_color_order()[k];
                    assert(colors[i] == player_color_order()[k]);
                }
                return None;
            },
        };
        let name = match self.generate_default_player_name(player_id) {
            Some(name) => name,
            None => {
                proof {
                    let names = self.players@.map_values(|p: Player| p.public.name@);
                    let candidates = Seq::new(
                        5,
                        |k: int| default_name(player_id as nat, (k + 1) as nat),
                    );
                    assert(decimal(player_id as nat).len() == 1);
                    assert forall|a: int, b: int|
                        0 <= a < 5 && 0 <= b < 5 && a != b implies candidates[a]
                        != candidates[b] by {
                        assert(candidates[a].len() != candidates[b].len());
                    }
                    assert(candidates.no_duplicates());
                    lemma_pigeonhole(candidates, names);
                    let k = choose|k: int| 0 <= k < 5 && !names.contains(#[trigger] candidates[k]);
                    assert(name_used(self.players@, default_name(player_id as nat, (k + 1) as nat)));
                    let i = choose|i: int|
                        0 <= i < self.players@.len() && #[trigger] self.players@[i].public.name@
                            == default_name(player_id as nat, (k + 1) as nat);
                    assert(names[i] == candidates[k]);
                }
                return None;
            },
        };
        let player = Player::new(player_id, color, name);
        self.players.push(player);
        proof {
            assert(self.players@.subrange(0, player_id as int) =~= old(self).players@);
        }
        Some(player_id)
    }

    /// Changes a player's name, in the lobby only, to a name no player has.
    pub fn change_player_name(&mut self, player_id: usize, new_name: String) -> (r:
        ManagerActionResult)
        requires
            old(self).wf(),
        ensures
            final(self).wf(),
            final(self).phase == old(self).phase,
            final(self).players@.len() == old(self).players@.len(),
            r is Ok <==> (old(self).phase == GamePhase::InLobby && player_id < old(self).players@.len() && forall|i: int|
                0 <= i < old(self).players@.len() ==> #[trigger] old(self).players@[i].public.name@
                    != new_name@),
            r is Ok ==> {
                &&& final(self).players@[player_id as int].public.name == new_name
                &&& forall|i: int|
                    0 <= i < old(self).players@.len() && i != player_id ==> #[trigger] final(self).players@[i] == old(self).players@[i]
            },
            r is Err ==> final(self).players@ == old(self).players@,
            match r {
                Err(e) => if old(self).phase != GamePhase::InLobby {
                    e@ == "Cannot change player's name outside of the lobby phase."@
                } else if exists|i: int|
                    0 <= i < old(self).players@.len() && #[trigger] old(self).players@[i].public.name@
                        == new_name@ {
                    e@ == "Cannot change name to already existing `"@ + new_name@ + "`."@
                } else {
                    e@ == "Unknown player."@
                },
                Ok(_) => true,
            },
    {
        if self.phase != GamePhase::InLobby {
            return Err(String::from_str("Cannot change player's name outside of the lobby phase."));
        }
        if self.is_name_used(&new_name) {
            let mut msg = String::from_str("Cannot change name to already existing `");
            msg.append(new_name.as_str());
            msg.append("`.");
            return Err(msg);
        }
        if player_id >= self.players.len() {
            return Err(String::from_str("Unknown player."));
        }
        let mut player = self.players.remove(player_id);
        player.change_name(new_name);
        self.players.insert(player_id, player);
        proof {
            assert(self.players@ =~= old(self).players@.update(player_id as int, player));
        }
        Ok(())
    }

    /// Changes a player's color, in the lobby only, to a color no player has.
    pub fn change_player_color(&mut self, player_id: usize, new_color: PlayerColor) -> (r:
        ManagerActionResult)
        requires
            old(self).wf(),
        ensures
            final(self).wf(),
            final(self).phase == old(self).phase,
            final(self).players@.len() == old(self).players@.len(),
            r is Ok <==> (old(self).phase == GamePhase::InLobby && player_id < old(self).players@.len() && forall|i: int|
                0 <= i < old(self).players@.len() ==> #[trigger] old(self).players@[i].public.color
                    != new_color),
            r is Ok ==> {
                &&& final(self).players@[player_id as int].public.color == new_color
                &&& forall|i: int|
                    0 <= i < old(self).players@.len() && i != player_id ==> #[trigger] final(self).players@[i] == old(self).players@[i]
            },
            r is Err ==> final(self).players@ == old(self).players@,
            match r {
                Err(e) => if old(self).phase != GamePhase::InLobby {
                    e@ == "Cannot change player's color outside of the lobby phase."@
                } else if exists|i: int|
                    0 <= i < old(self).players@.len() && #[trigger] old(self).players@[i].public.color == new_color {
                    e@ == "Cannot change color to `"@ + player_color_name(new_color)
                        + "`, as it is already used."@
                } else {
                    e@ == "Unknown player."@
                },
                Ok(_) => true,
            },
    {
        if self.phase != GamePhase::InLobby {
            return Err(String::from_str("Cannot change player's color outside of the lobby phase."));
        }
        if self.is_color_used(new_color) {
            let mut msg = String::from_str("Cannot change color to `");
            msg.append(new_color.to_string().as_str());
            msg.append("`, as it is already used.");
            return Err(msg);
        }
        if player_id >= self.players.len() {
            return Err(String::from_str("Unknown player."));
        }
        let mut player = self.players.remove(player_id);
        player.change_color(new_color);
        self.players.insert(player_id, player);
        proof {
            assert(self.players@ =~= old(self).players@.update(player_id as int, player));
        }
        Ok(())
    }

    /// Whether every player is ready.
    pub open spec fn all_ready(&self) -> bool {
        forall|i: int| 0 <= i < self.players@.len() ==> (#[trigger] self.players@[i]).public.is_ready
    }

    fn are_all_ready(&self) -> (r: bool)
        ensures
            r == self.all_ready(),
    {
        let mut i: usize = 0;
        while i < self.players.len()
            invariant
                i <= self.players@.len(),
                forall|j: int| 0 <= j < i ==> (#[trigger] self.players@[j]).public.is_ready,
            decreases self.players@.len() - i,
        {
            if !self.players[i].ready() {
                return false;
            }
            i = i + 1;
        }
        true
    }

    /// Sets whether a player is ready, in the lobby only. Once there are two or more players
    /// and all are ready, the game starts.
    pub fn set_ready(&mut self, player_id: usize, is_ready: bool) -> (r: ManagerActionResult)
        requires
            old(self).wf(),
        ensures
            final(self).wf(),
            r is Ok <==> old(self).phase == GamePhase::InLobby && player_id < old(self).players@.len(),
            match r {
                Err(e) => {
                    &&& final(self).phase == old(self).phase
                    &&& final(self).players@ == old(self).players@
                    &&& if old(self).phase != GamePhase::InLobby {
                        e@ == "Cannot change ready status outside of the lobby phase."@
                    } else {
                        e@ == "Unknown player."@
                    }
                },
                Ok(_) => {
                    let updated = old(self).players@[player_id as int];
                    &&& final(self).players@.len() == old(self).players@.len()
                    &&& if final(self).phase == GamePhase::Starting {
                        &&& old(self).players@.len() >= MIN_PLAYERS
                        &&& forall|i: int|
                            0 <= i < old(self).players@.len() && i != player_id ==> (#[trigger] old(self).players@[i]).public.is_ready
                        &&& is_ready
                        &&& final(self).turn is None
                        &&& forall|i: int|
                            0 <= i < final(self).players@.len() ==> {
                                &&& (#[trigger] final(self).players@[i]).public.num_train_cards == 4
                                &&& hand_cards(final(self).players@[i].private.pending_destination_cards).len()
                                    == 3
                            }
                    } else {
                        &&& final(self).phase == GamePhase::InLobby
                        &&& final(self).players@[player_id as int].public.is_ready == is_ready
                        &&& final(self).players@[player_id as int].public.id == updated.public.id
                        &&& forall|i: int|
                            0 <= i < old(self).players@.len() && i != player_id ==> #[trigger] final(self).players@[i]
                                == old(self).players@[i]
                        &&& !final(self).all_ready() || final(self).players@.len() < MIN_PLAYERS
                    }
                },
            },
    {
        if self.phase != GamePhase::InLobby {
            return Err(String::from_str("Cannot change ready status outside of the lobby phase."));
        }
        if player_id >= self.players.len() {
            return Err(String::from_str("Unknown player."));
        }
        let mut player = self.players.remove(player_id);
        player.set_ready(is_ready);
        self.players.insert(player_id, player);
        proof {
            assert(self.players@ =~= old(self).players@.update(player_id as int, player));
        }
        if self.players.len() >= MIN_PLAYERS && self.are_all_ready() {
            proof {
                assert(self.players@[player_id as int].public.is_ready);
                assert forall|i: int|
                    0 <= i < old(self).players@.len() && i != player_id implies (#[trigger] old(self).players@[i]).public.is_ready by {
                    assert(self.players@[i] == old(self).players@[i]);
                }
            }
            self.start_game();
        }
        Ok(())
    }

    fn start_game(&mut self)
        requires
            old(self).wf(),
            old(self).phase == GamePhase::InLobby,
            old(self).players@.len() >= MIN_PLAYERS,
        ensures
            final(self).wf(),
            final(self).phase == GamePhase::Starting,
            final(self).turn is None,
            final(self).players@.len() == old(self).players@.len(),
            forall|i: int|
                0 <= i < final(self).players@.len() ==> {
                    &&& (#[trigger] final(self).players@[i]).public.num_train_cards == 4
                    &&& hand_cards(final(self).players@[i].private.pending_destination_cards).len() == 3
                },
    {
        let n = self.players.len();
        let map = match GameMap::new(n) {
            Ok(map) => map,
            Err(_) => {
                proof {
                    assert(false);
                }
                return ;
            },
        };
        let mut card_dealer = CardDealer::new();
        let ghost before = self.players@;
        shuffle(&mut self.players);
        proof {
            assert forall|i: int| 0 <= i < n implies {
                &&& (#[trigger] self.players@[i]).wf()
                &&& self.players@[i].public.num_train_cards == 0
                &&& hand_cards(self.players@[i].private.pending_destination_cards).len() == 0
            } by {
                let p = self.players@[i];
                assert(self.players@.contains(p));
                assert(self.players@.to_multiset().count(p) > 0);
                assert(before.to_multiset().count(p) > 0);
                assert(before.contains(p));
                let j = choose|j: int| 0 <= j < before.len() && before[j] == p;
                assert(before[j].wf());
            }
            assert(card_dealer.census().len() == 110);
            lemma_total_held_zero(self.players@);
        }
        let mut i: usize = 0;
        while i < n
            invariant
                n == self.players@.len(),
                2 <= n <= MAX_PLAYERS,
                i <= n,
                self.phase == GamePhase::InLobby,
                self.turn is None,
                self.num_players_selected_initial_destination_cards <= n,
                self.num_players_done_playing <= n,
                card_dealer.wf(),
                card_dealer.stocked(),
                card_dealer.supply() == 105 - 4 * i,
                card_dealer.destination_card_deck@.len() == 30 - 3 * i,
                card_dealer.census().len() + total_held(self.players@) == 110,
                forall|j: int| 0 <= j < n ==> (#[trigger] self.players@[j]).wf(),
                forall|j: int|
                    0 <= j < i ==> {
                        &&& (#[trigger] self.players@[j]).public.num_train_cards == 4
                        &&& hand_cards(self.players@[j].private.pending_destination_cards).len() == 3
                    },
                forall|j: int|
                    i <= j < n ==> {
                        &&& (#[trigger] self.players@[j]).public.num_train_cards == 0
                        &&& hand_cards(self.players@[j].private.pending_destination_cards).len() == 0
                    },
            decreases n - i,
        {
            let ghost players = self.players@;
            let mut player = self.players.remove(i);
            player.initialize_when_game_starts(&mut card_dealer);
            self.players.insert(i, player);
            proof {
                assert(self.players@ =~= players.update(i as int, player));
                lemma_total_held_update(players, i as int, player);
            }
            i = i + 1;
        }
        self.map = Some(map);
        self.card_dealer = Some(card_dealer);
        self.phase = GamePhase::Starting;
        self.num_players_selected_initial_destination_cards = 0;
        self.num_players_done_playing = 0;
    }

    /// Succeeds while the game is running: initial selection, turn-based game or last turns.
    pub fn has_game_started(&self) -> (r: ManagerActionResult)
        ensures
            r is Ok <==> (self.phase == GamePhase::Starting || self.phase == GamePhase::Playing
                || self.phase == GamePhase::LastTurn),
            r matches Err(e) ==> e@ == "Cannot play if the game has not started, or if it has ended."@,
    {
        if self.phase == GamePhase::Starting || self.phase == GamePhase::Playing || self.phase
            == GamePhase::LastTurn {
            Ok(())
        } else {
            Err(String::from_str("Cannot play if the game has not started, or if it has ended."))
        }
    }

    /// Succeeds while the turn-based game is running.
    pub fn has_turn_based_game_started(&self) -> (r: ManagerActionResult)
        ensures
            r is Ok <==> (self.phase == GamePhase::Playing || self.phase == GamePhase::LastTurn),
            r matches Err(e) ==> e@
                == "Cannot play if the turn-based game has not started, or if it has ended."@,
    {
        if self.phase == GamePhase::Playing || self.phase == GamePhase::LastTurn {
            Ok(())
        } else {
            Err(
                String::from_str(
                    "Cannot play if the turn-based game has not started, or if it has ended.",
                ),
            )
        }
    }

    /// Whose turn it is: the player at position `turn` modulo the number of players.
    pub open spec fn turn_index(&self) -> int {
        self.turn.unwrap() as int % self.players@.len() as int
    }

    fn is_player_turn(&self, player_index: usize) -> (r: ManagerActionResult)
        requires
            self.turn is Some,
            self.players@.len() > 0,
        ensures
            r is Ok <==> player_index == self.turn_index(),
            r matches Err(e) ==> e@ == "This is not your turn!"@,
    {
        if self.turn.unwrap() % self.players.len() == player_index {
            Ok(())
        } else {
            Err(String::from_str("This is not your turn!"))
        }
    }

    /// Why player `player_id` may not act in the turn-based game now, if they may not.
    pub open spec fn turn_error(&self, player_id: usize) -> Option<Seq<char>> {
        if !(self.phase == GamePhase::Playing || self.phase == GamePhase::LastTurn) {
            Some("Cannot play if the turn-based game has not started, or if it has ended."@)
        } else if forall|i: int|
            0 <= i < self.players@.len() ==> #[trigger] self.players@[i].public.id != player_id {
            Some("Unknown player."@)
        } else if !first_with_id(self.players@, player_id, self.turn_index()) {
            Some("This is not your turn!"@)
        } else {
            None
        }
    }

    /// The player whose turn it is.
    pub open spec fn turn_player(&self) -> Player {
        self.players@[self.turn_index()]
    }

    /// How many players are done once the player of this turn is done too.
    pub open spec fn done_after_turn(&self) -> usize {
        if self.num_players_done_playing < self.players@.len() {
            (self.num_players_done_playing + 1) as usize
        } else {
            self.num_players_done_playing
        }
    }

    /// How the end of the turn of the player at `index` changes the game from `self` to
    /// `after`: the turn advances; in the main phase, fewer than three cars left start the
    /// last turns; in the last turns, the player is done, and the game is done once every
    /// player is.
    pub open spec fn turn_ended(&self, after: Manager, index: int) -> bool {
        &&& after.turn == self.next_turn()
        &&& self.phase == GamePhase::Playing ==> if after.players@[index].public.cars < 3 {
            after.phase == GamePhase::LastTurn && after.num_players_done_playing == 0
        } else {
            after.phase == GamePhase::Playing
        }
        &&& self.phase == GamePhase::LastTurn ==> {
            &&& after.players@[index].public.is_done_playing
            &&& after.num_players_done_playing == self.done_after_turn()
            &&& after.phase == if self.done_after_turn() == self.players@.len() {
                GamePhase::Done
            } else {
                GamePhase::LastTurn
            }
        }
    }

    /// What the players hold is the same in both lists: ids, claimed routes, cars, cards.
    pub open spec fn same_holdings(players: Seq<Player>, other: Seq<Player>) -> bool {
        &&& players.len() == other.len()
        &&& forall|i: int|
            0 <= i < players.len() ==> {
                let p = #[trigger] players[i];
                let q = other[i];
                &&& p.public.id == q.public.id
                &&& p.public.claimed_routes == q.public.claimed_routes
                &&& p.public.cars == q.public.cars
                &&& p.public.num_train_cards == q.public.num_train_cards
                &&& p.private == q.private
            }
    }

    /// The turn after the current one.
    pub open spec fn next_turn(&self) -> Option<usize> {
        let t = self.turn.unwrap();
        Some(
            if t < usize::MAX {
                (t + 1) as usize
            } else {
                t
            },
        )
    }

    fn finish_game(&mut self)
        requires
            old(self).wf(),
            old(self).phase == GamePhase::LastTurn,
        ensures
            final(self).phase == GamePhase::Done,
            final(self).turn == old(self).turn,
            final(self).players@.len() == old(self).players@.len(),
            final(self).map == old(self).map,
            final(self).card_dealer == old(self).card_dealer,
            final(self).num_players_done_playing == old(self).num_players_done_playing,
            final(self).num_players_selected_initial_destination_cards == old(self).num_players_selected_initial_destination_cards,
            total_held(final(self).players@) == total_held(old(self).players@),
            forall|i: int|
                0 <= i < final(self).players@.len() ==> {
                    let p = #[trigger] final(self).players@[i];
                    let q = old(self).players@[i];
                    &&& p.public.id == q.public.id
                    &&& p.public.is_done_playing == q.public.is_done_playing
                    &&& p.public.cars == q.public.cars
                    &&& p.public.num_train_cards == q.public.num_train_cards
                    &&& p.public.claimed_routes == q.public.claimed_routes
                    &&& p.private == q.private
                    &&& p.public.has_longest_route is Some
                    &&& q.private.selected_destination_cards@.len() <= 100000 ==> p.public.points
                        == q.public.points + crate::player::destination_score(
                        old(self).map.unwrap().routes(),
                        q.public.id,
                        q.private.selected_destination_cards@,
                    )
                },
            exists|lengths: Seq<u16>|
                #![trigger lengths.len()]
                lengths.len() == old(self).players@.len() && (forall|i: int|
                    0 <= i < lengths.len() ==> is_longest(
                        old(self).players@[i].public.claimed_routes@,
                        #[trigger] lengths[i] as nat,
                    ) && final(self).players@[i].public.has_longest_route == Some(
                        forall|j: int| 0 <= j < lengths.len() ==> lengths[j] <= lengths[i],
                    )),
    {
        let map = self.map.take().unwrap();
        let n = self.players.len();
        let mut lengths: Vec<u16> = Vec::new();
        let mut i: usize = 0;
        while i < n
            invariant
                n == self.players@.len() == old(self).players@.len(),
                i <= n,
                lengths@.len() == i,
                self.phase == old(self).phase,
                self.turn == old(self).turn,
                self.card_dealer == old(self).card_dealer,
                self.num_players_done_playing == old(self).num_players_done_playing,
                self.num_players_selected_initial_destination_cards == old(self).num_players_selected_initial_destination_cards,
                old(self).map == Some(map),
                total_held(self.players@) == total_held(old(self).players@),
                forall|j: int| i <= j < n ==> #[trigger] self.players@[j] == old(self).players@[j],
                forall|j: int| 0 <= j < n ==> (#[trigger] old(self).players@[j]).wf(),
                forall|j: int|
                    0 <= j < i ==> {
                        let p = #[trigger] self.players@[j];
                        let q = old(self).players@[j];
                        &&& p.public.id == q.public.id
                        &&& p.public.is_done_playing == q.public.is_done_playing
                    &&& p.public.cars == q.public.cars
                    &&& p.public.num_train_cards == q.public.num_train_cards
                        &&& p.public.num_train_cards == q.public.num_train_cards
                        &&& p.public.claimed_routes == q.public.claimed_routes
                        &&& p.private == q.private
                        &&& is_longest(q.public.claimed_routes@, lengths@[j] as nat)
                        &&& q.private.selected_destination_cards@.len() <= 100000
                            ==> p.public.points == q.public.points
                            + crate::player::destination_score(
                            map.routes(),
                            q.public.id,
                            q.private.selected_destination_cards@,
                        )
                    },
            decreases n - i,
        {
            let ghost players = self.players@;
            let mut player = self.players.remove(i);
            let length = if player.private.selected_destination_cards.len() <= 100000 {
                player.finalize(&map)
            } else {
                GameMap::get_longest_route(&player.public.claimed_routes)
            };
            lengths.push(length);
            self.players.insert(i, player);
            proof {
                assert(self.players@ =~= players.update(i as int, player));
                lemma_total_held_update(players, i as int, player);
            }
            i = i + 1;
        }
        let ghost finalized = self.players@;
        let mut max_length: u16 = 0;
        let mut k: usize = 0;
        while k < n
            invariant
                self.players@ == finalized,
                forall|j: int|
                    0 <= j < n ==> {
                        let p = #[trigger] finalized[j];
                        let q = old(self).players@[j];
                        &&& p.public.id == q.public.id
                        &&& p.public.is_done_playing == q.public.is_done_playing
                    &&& p.public.cars == q.public.cars
                    &&& p.public.num_train_cards == q.public.num_train_cards
                        &&& p.public.num_train_cards == q.public.num_train_cards
                        &&& p.public.claimed_routes == q.public.claimed_routes
                        &&& p.private == q.private
                        &&& is_longest(q.public.claimed_routes@, lengths@[j] as nat)
                        &&& q.private.selected_destination_cards@.len() <= 100000
                            ==> p.public.points == q.public.points
                            + crate::player::destination_score(
                            map.routes(),
                            q.public.id,
                            q.private.selected_destination_cards@,
                        )
                    },
                total_held(finalized) == total_held(old(self).players@),
                finalized.len() == n,
                n == old(self).players@.len(),
                self.phase == old(self).phase,
                self.turn == old(self).turn,
                self.card_dealer == old(self).card_dealer,
                self.num_players_done_playing == old(self).num_players_done_playing,
                self.num_players_selected_initial_destination_cards == old(self).num_players_selected_initial_destination_cards,
                old(self).map == Some(map),
                k <= n == lengths@.len(),
                k == 0 ==> max_length == 0,
                forall|j: int| 0 <= j < k ==> lengths@[j] <= max_length,
                k > 0 ==> exists|j: int| 0 <= j < k && lengths@[j] == max_length,
            decreases n - k,
        {
            if lengths[k] > max_length {
                max_length = lengths[k];
            }
            proof {
                if lengths@[k as int] == max_length {
                    assert(0 <= k < k + 1 && lengths@[k as int] == max_length);
                } else {
                    assert(k > 0);
                    let j = choose|j: int| 0 <= j < k && lengths@[j] == max_length;
                    assert(0 <= j < k + 1 && lengths@[j] == max_length);
                }
            }
            k = k + 1;
        }
        let mut k: usize = 0;
        while k < n
            invariant
                forall|j: int|
                    0 <= j < n ==> {
                        let p = #[trigger] finalized[j];
                        let q = old(self).players@[j];
                        &&& p.public.id == q.public.id
                        &&& p.public.is_done_playing == q.public.is_done_playing
                    &&& p.public.cars == q.public.cars
                    &&& p.public.num_train_cards == q.public.num_train_cards
                        &&& p.public.num_train_cards == q.public.num_train_cards
                        &&& p.public.claimed_routes == q.public.claimed_routes
                        &&& p.private == q.private
                        &&& is_longest(q.public.claimed_routes@, lengths@[j] as nat)
                        &&& q.private.selected_destination_cards@.len() <= 100000
                            ==> p.public.points == q.public.points
                            + crate::player::destination_score(
                            map.routes(),
                            q.public.id,
                            q.private.selected_destination_cards@,
                        )
                    },
                total_held(finalized) == total_held(old(self).players@),
                finalized.len() == n,
                n == old(self).players@.len(),
                self.phase == old(self).phase,
                self.turn == old(self).turn,
                self.card_dealer == old(self).card_dealer,
                self.num_players_done_playing == old(self).num_players_done_playing,
                self.num_players_selected_initial_destination_cards == old(self).num_players_selected_initial_destination_cards,
                old(self).map == Some(map),
                k <= n == lengths@.len() == self.players@.len(),
                finalized.len() == n,
                forall|j: int| 0 <= j < n ==> lengths@[j] <= max_length,
                n > 0 ==> exists|j: int| 0 <= j < n && lengths@[j] == max_length,
                total_held(self.players@) == total_held(finalized),
                forall|j: int|
                    k <= j < n ==> #[trigger] self.players@[j] == finalized[j],
                forall|j: int|
                    0 <= j < k ==> {
                        let p = #[trigger] self.players@[j];
                        let q = finalized[j];
                        &&& p.public.id == q.public.id
                        &&& p.public.points == q.public.points
                        &&& p.public.is_done_playing == q.public.is_done_playing
                    &&& p.public.cars == q.public.cars
                    &&& p.public.num_train_cards == q.public.num_train_cards
                        &&& p.public.num_train_cards == q.public.num_train_cards
                        &&& p.public.claimed_routes == q.public.claimed_routes
                        &&& p.private == q.private
                        &&& p.public.has_longest_route == Some(lengths@[j] == max_length)
                    },
            decreases n - k,
        {
            let ghost players = self.players@;
            let mut player = self.players.remove(k);
            player.set_has_longest_route(lengths[k] == max_length);
            self.players.insert(k, player);
            proof {
                assert(self.players@ =~= players.update(k as int, player));
                lemma_total_held_update(players, k as int, player);
            }
            k = k + 1;
        }
        self.map = Some(map);
        self.phase = GamePhase::Done;
        proof {
            assert forall|i: int| 0 <= i < lengths@.len() implies (lengths@[i] == max_length) == (
            forall|j: int| 0 <= j < lengths@.len() ==> lengths@[j] <= lengths@[i]) by {
                if lengths@[i] != max_length {
                    let j = choose|j: int| 0 <= j < n && lengths@[j] == max_length;
                    assert(lengths@[j] > lengths@[i]);
                }
            }
        }
    }

    /// Ends the turn of the player at `player_index`: the turn advances; in the main phase,
    /// fewer than three cars left start the last turns; in the last turns, the player is
    /// done, and once all are done the game is over and scored.
    fn end_turn(&mut self, player_index: usize)
        requires
            old(self).wf(),
            old(self).phase == GamePhase::Playing || old(self).phase == GamePhase::LastTurn,
            player_index < old(self).players@.len(),
        ensures
            final(self).wf(),
            final(self).turn == old(self).next_turn(),
            final(self).players@.len() == old(self).players@.len(),
            old(self).phase == GamePhase::Playing ==> {
                &&& final(self).players@ == old(self).players@
                &&& final(self).phase == if old(self).players@[player_index as int].public.cars < 3 {
                    GamePhase::LastTurn
                } else {
                    GamePhase::Playing
                }
            },
            old(self).phase == GamePhase::LastTurn ==> {
                &&& final(self).players@[player_index as int].public.is_done_playing
                &&& final(self).phase == GamePhase::LastTurn || final(self).phase == GamePhase::Done
            },
            old(self).turn_ended(*final(self), player_index as int),
            Self::same_holdings(final(self).players@, old(self).players@),
            final(self).map == old(self).map,
            final(self).card_dealer == old(self).card_dealer,
            final(self).num_players_selected_initial_destination_cards == old(self).num_players_selected_initial_destination_cards,
    {
        let t = self.turn.unwrap();
        if t < usize::MAX {
            self.turn = Some(t + 1);
        }
        if self.phase == GamePhase::Playing {
            if self.players[player_index].cars() < 3 {
                self.phase = GamePhase::LastTurn;
                self.num_players_done_playing = 0;
            }
            return;
        }
        let ghost players = self.players@;
        let mut player = self.players.remove(player_index);
        player.set_done_playing();
        self.players.insert(player_index, player);
        proof {
            assert(self.players@ =~= players.update(player_index as int, player));
            lemma_total_held_update(players, player_index as int, player);
        }
        if self.num_players_done_playing < self.players.len() {
            self.num_players_done_playing = self.num_players_done_playing + 1;
        }
        if self.num_players_done_playing == self.players.len() {
            self.finish_game();
        }
    }


    /// The position of the first player with the given id.
    pub open spec fn acting_index(&self, player_id: usize) -> int {
        choose|i: int| first_with_id(self.players@, player_id, i)
    }

    /// A failed action changes nothing: phase, turn, players, counters, map and decks.
    pub open spec fn unchanged_by_failure(&self, after: Manager) -> bool {
        &&& after.phase == self.phase
        &&& after.turn == self.turn
        &&& after.players@ == self.players@
        &&& after.num_players_selected_initial_destination_cards
            == self.num_players_selected_initial_destination_cards
        &&& after.num_players_done_playing == self.num_players_done_playing
        &&& self.map matches Some(m) ==> after.map matches Some(f) && f.routes() == m.routes()
            && f.parallel_allowed() == m.parallel_allowed()
        &&& self.card_dealer matches Some(d) ==> after.card_dealer matches Some(c) && c.same_as(&d)
    }

    /// Why player `player_id` may not select destination cards now, before their own rules
    /// are checked, if they may not.
    pub open spec fn select_gate_error(&self, player_id: usize) -> Option<Seq<char>> {
        if !(self.phase == GamePhase::Starting || self.phase == GamePhase::Playing || self.phase
            == GamePhase::LastTurn) {
            Some("Cannot play if the game has not started, or if it has ended."@)
        } else if self.phase == GamePhase::Starting {
            if forall|i: int|
                0 <= i < self.players@.len() ==> #[trigger] self.players@[i].public.id != player_id {
                Some("Unknown player."@)
            } else {
                None
            }
        } else {
            self.turn_error(player_id)
        }
    }

    fn find_player(&self, player_id: usize) -> (r: Result<usize, String>)
        ensures
            match r {
                Ok(i) => first_with_id(self.players@, player_id, i as int),
                Err(e) => {
                    &&& e@ == "Unknown player."@
                    &&& forall|i: int|
                        0 <= i < self.players@.len() ==> #[trigger] self.players@[i].public.id
                            != player_id
                },
            },
    {
        match self.get_player_index(player_id) {
            Some(i) => Ok(i),
            None => Err(String::from_str("Unknown player.")),
        }
    }

    /// Lets a player keep some of their pending destination cards: the initial selection
    /// while the game is starting, in any order; later, on the player's own turn, after
    /// drawing destination cards. When the last player makes the initial selection, the
    /// turn-based game starts at turn 0; a later selection ends the player's turn.
    pub fn select_destination_cards(&mut self, player_id: usize, destination_cards_decisions: Vec<
        bool,
    >) -> (r: ManagerActionResult)
        requires
            old(self).wf(),
        ensures
            final(self).wf(),
            old(self).select_gate_error(player_id) is None && old(self).players@[old(self).acting_index(player_id)].select_error(destination_cards_decisions@, old(self).turn)
                is None ==> r is Ok,
            match r {
                Err(e) => {
                    &&& e@ == match old(self).select_gate_error(player_id) {
                        Some(m) => m,
                        None => old(self).players@[old(self).acting_index(player_id)].select_error(
                            destination_cards_decisions@,
                            old(self).turn,
                        ).unwrap(),
                    }
                    &&& old(self).unchanged_by_failure(*final(self))
                },
                Ok(_) => {
                    let k = old(self).acting_index(player_id);
                    let p = old(self).players@[k];
                    let pending = hand_cards(p.private.pending_destination_cards);
                    &&& old(self).select_gate_error(player_id) is None
                    &&& p.select_error(destination_cards_decisions@, old(self).turn) is None
                    &&& first_with_id(old(self).players@, player_id, k)
                    &&& hand_cards(final(self).players@[k].private.pending_destination_cards).len() == 0
                    &&& final(self).players@[k].private.selected_destination_cards@
                        == p.private.selected_destination_cards@ + crate::player::picked(
                        pending,
                        destination_cards_decisions@,
                        true,
                        pending.len() as int,
                    )
                    &&& old(self).phase == GamePhase::Starting ==> {
                        &&& final(self).num_players_selected_initial_destination_cards == if old(self).num_players_selected_initial_destination_cards < old(self).players@.len() {
                            old(self).num_players_selected_initial_destination_cards + 1
                        } else {
                            old(self).num_players_selected_initial_destination_cards as int
                        }
                        &&& if final(self).num_players_selected_initial_destination_cards == old(self).players@.len() {
                            final(self).phase == GamePhase::Playing && final(self).turn == Some(
                                0usize,
                            )
                        } else {
                            final(self).phase == GamePhase::Starting && final(self).turn is None
                        }
                    }
                    &&& old(self).phase != GamePhase::Starting ==> old(self).turn_ended(
                        *final(self),
                        k,
                    )
                },
            },
    {
        match self.has_game_started() {
            Ok(_) => {},
            Err(e) => return Err(e),
        }
        let player_index = match self.find_player(player_id) {
            Ok(i) => i,
            Err(e) => return Err(e),
        };
        if self.phase != GamePhase::Starting {
            match self.is_player_turn(player_index) {
                Ok(_) => {},
                Err(e) => return Err(e),
            }
        }
        let ghost players = self.players@;
        let mut card_dealer = self.card_dealer.take().unwrap();
        let mut player = self.players.remove(player_index);
        let result = player.select_destination_cards(
            destination_cards_decisions,
            self.turn,
            &mut card_dealer,
        );
        self.players.insert(player_index, player);
        self.card_dealer = Some(card_dealer);
        proof {
            assert(self.players@ =~= players.update(player_index as int, player));
            lemma_total_held_update(players, player_index as int, player);
            assert(self.card_dealer.unwrap().census() =~= old(self).card_dealer.unwrap().census());
        }
        match result {
            Ok(_) => {},
            Err(e) => {
                proof {
                    assert(self.players@ =~= players);
                }
                return Err(e);
            },
        }
        if self.phase == GamePhase::Starting {
            if self.num_players_selected_initial_destination_cards < self.players.len() {
                self.num_players_selected_initial_destination_cards =
                self.num_players_selected_initial_destination_cards + 1;
            }
            if self.num_players_selected_initial_destination_cards == self.players.len() {
                self.phase = GamePhase::Playing;
                self.turn = Some(0);
            }
        } else {
            self.end_turn(player_index);
        }
        Ok(())
    }

    /// Lets a player draw destination cards, on their turn; the turn goes on until they
    /// select which to keep.
    pub fn draw_destination_cards(&mut self, player_id: usize) -> (r: ManagerActionResult)
        requires
            old(self).wf(),
        ensures
            final(self).wf(),
            old(self).turn_error(player_id) is None && old(self).turn_player().destination_draw_error(old(self).card_dealer.unwrap(), old(self).turn.unwrap()) is None ==> r
                is Ok,
            match r {
                Err(e) => {
                    &&& e@ == match old(self).turn_error(player_id) {
                        Some(m) => m,
                        None => old(self).turn_player().destination_draw_error(old(self).card_dealer.unwrap(), old(self).turn.unwrap()).unwrap(),
                    }
                    &&& old(self).unchanged_by_failure(*final(self))
                },
                Ok(_) => {
                    let k = old(self).turn_index();
                    let p = old(self).turn_player();
                    &&& old(self).turn_error(player_id) is None
                    &&& p.destination_draw_error(old(self).card_dealer.unwrap(), old(self).turn.unwrap()) is None
                    &&& final(self).phase == old(self).phase
                    &&& final(self).turn == old(self).turn
                    &&& hand_cards(final(self).players@[k].private.pending_destination_cards).len() == if old(self).card_dealer.unwrap().destination_card_deck@.len() < 3 {
                        old(self).card_dealer.unwrap().destination_card_deck@.len()
                    } else {
                        3
                    }
                },
            },
    {
        match self.has_turn_based_game_started() {
            Ok(_) => {},
            Err(e) => return Err(e),
        }
        let player_index = match self.find_player(player_id) {
            Ok(i) => i,
            Err(e) => return Err(e),
        };
        match self.is_player_turn(player_index) {
            Ok(_) => {},
            Err(e) => return Err(e),
        }
        let ghost players = self.players@;
        let turn = self.turn.unwrap();
        let mut card_dealer = self.card_dealer.take().unwrap();
        let mut player = self.players.remove(player_index);
        let result = player.draw_destination_cards(turn, &mut card_dealer);
        self.players.insert(player_index, player);
        self.card_dealer = Some(card_dealer);
        proof {
            assert(self.players@ =~= players.update(player_index as int, player));
            lemma_total_held_update(players, player_index as int, player);
            assert(self.card_dealer.unwrap().census() =~= old(self).card_dealer.unwrap().census());
        }
        match result {
            Ok(_) => Ok(()),
            Err(e) => {
                proof {
                    assert(self.players@ =~= players);
                }
                Err(e)
            },
        }
    }

    /// Lets a player draw the train card at slot `card_index` of the open deck, on their
    /// turn; the turn ends when the player's draws for it are over.
    pub fn draw_open_train_card(&mut self, player_id: usize, card_index: usize) -> (r:
        ManagerActionResult)
        requires
            old(self).wf(),
        ensures
            final(self).wf(),
            old(self).turn_error(player_id) is None && old(self).turn_player().open_card_draw_error(old(self).card_dealer.unwrap(), card_index as int, old(self).turn.unwrap()) is None ==> r
                is Ok,
            match r {
                Err(e) => {
                    &&& e@ == match old(self).turn_error(player_id) {
                        Some(m) => m,
                        None => old(self).turn_player().open_card_draw_error(old(self).card_dealer.unwrap(), card_index as int, old(self).turn.unwrap()).unwrap(),
                    }
                    &&& old(self).unchanged_by_failure(*final(self))
                },
                Ok(_) => {
                    let k = old(self).turn_index();
                    let p = old(self).turn_player();
                    &&& old(self).turn_error(player_id) is None
                    &&& p.open_card_draw_error(old(self).card_dealer.unwrap(), card_index as int, old(self).turn.unwrap()) is None
                    &&& final(self).players@[k].public.num_train_cards == p.public.num_train_cards + 1
                    &&& (final(self).turn == old(self).turn && final(self).phase == old(self).phase)
                        || old(self).turn_ended(*final(self), k)
                },
            },
    {
        match self.has_turn_based_game_started() {
            Ok(_) => {},
            Err(e) => return Err(e),
        }
        let player_index = match self.find_player(player_id) {
            Ok(i) => i,
            Err(e) => return Err(e),
        };
        match self.is_player_turn(player_index) {
            Ok(_) => {},
            Err(e) => return Err(e),
        }
        let ghost players = self.players@;
        let turn = self.turn.unwrap();
        let mut card_dealer = self.card_dealer.take().unwrap();
        let mut player = self.players.remove(player_index);
        proof {
            lemma_total_held_update(players, player_index as int, player);
        }
        let result = player.draw_open_train_card(card_index, turn, &mut card_dealer);
        self.players.insert(player_index, player);
        self.card_dealer = Some(card_dealer);
        proof {
            assert(self.players@ =~= players.update(player_index as int, player));
            lemma_total_held_update(players, player_index as int, player);
        }
        match result {
            Ok(turn_over) => {
                if turn_over {
                    self.end_turn(player_index);
                }
                Ok(())
            },
            Err(e) => {
                proof {
                    assert(self.players@ =~= players);
                    assert(self.card_dealer.unwrap().census() =~= old(self).card_dealer.unwrap().census());
                }
                Err(e)
            },
        }
    }

    /// Lets a player draw the top train card of the close deck, on their turn; the turn
    /// ends when the player's draws for it are over.
    pub fn draw_close_train_card(&mut self, player_id: usize) -> (r: ManagerActionResult)
        requires
            old(self).wf(),
        ensures
            final(self).wf(),
            old(self).turn_error(player_id) is None && old(self).turn_player().close_card_draw_error(old(self).card_dealer.unwrap(), old(self).turn.unwrap()) is None ==> r
                is Ok,
            match r {
                Err(e) => {
                    &&& e@ == match old(self).turn_error(player_id) {
                        Some(m) => m,
                        None => old(self).turn_player().close_card_draw_error(old(self).card_dealer.unwrap(), old(self).turn.unwrap()).unwrap(),
                    }
                    &&& old(self).unchanged_by_failure(*final(self))
                },
                Ok(_) => {
                    let k = old(self).turn_index();
                    let p = old(self).turn_player();
                    &&& old(self).turn_error(player_id) is None
                    &&& p.close_card_draw_error(old(self).card_dealer.unwrap(), old(self).turn.unwrap()) is None
                    &&& final(self).players@[k].public.num_train_cards == p.public.num_train_cards + 1
                    &&& (final(self).turn == old(self).turn && final(self).phase == old(self).phase)
                        || old(self).turn_ended(*final(self), k)
                },
            },
    {
        match self.has_turn_based_game_started() {
            Ok(_) => {},
            Err(e) => return Err(e),
        }
        let player_index = match self.find_player(player_id) {
            Ok(i) => i,
            Err(e) => return Err(e),
        };
        match self.is_player_turn(player_index) {
            Ok(_) => {},
            Err(e) => return Err(e),
        }
        let ghost players = self.players@;
        let turn = self.turn.unwrap();
        let mut card_dealer = self.card_dealer.take().unwrap();
        let mut player = self.players.remove(player_index);
        proof {
            lemma_total_held_update(players, player_index as int, player);
        }
        let result = player.draw_close_train_card(turn, &mut card_dealer);
        self.players.insert(player_index, player);
        self.card_dealer = Some(card_dealer);
        proof {
            assert(self.players@ =~= players.update(player_index as int, player));
            lemma_total_held_update(players, player_index as int, player);
        }
        match result {
            Ok(turn_over) => {
                if turn_over {
                    self.end_turn(player_index);
                }
                Ok(())
            },
            Err(e) => {
                proof {
                    assert(self.players@ =~= players);
                    assert(self.card_dealer.unwrap().census() =~= old(self).card_dealer.unwrap().census());
                }
                Err(e)
            },
        }
    }

    /// Lets a player claim a route with the given cards, on their turn; a claim ends the
    /// turn, and leaving the player with fewer than three cars starts the last turns.
    pub fn claim_route(
        &mut self,
        player_id: usize,
        route: CityToCity,
        parallel_route_index: usize,
        cards: Vec<TrainColor>,
    ) -> (r: ManagerActionResult)
        requires
            old(self).wf(),
        ensures
            final(self).wf(),
            old(self).turn_error(player_id) is None && old(self).turn_player().claim_route_error(route, parallel_route_index as int, cards@, old(self).turn.unwrap(), old(self).map.unwrap()) is None ==> r
                is Ok,
            match r {
                Err(e) => {
                    &&& e@ == match old(self).turn_error(player_id) {
                        Some(m) => m,
                        None => old(self).turn_player().claim_route_error(route, parallel_route_index as int, cards@, old(self).turn.unwrap(), old(self).map.unwrap()).unwrap(),
                    }
                    &&& old(self).unchanged_by_failure(*final(self))
                },
                Ok(_) => {
                    let k = old(self).turn_index();
                    let p = old(self).turn_player();
                    &&& old(self).turn_error(player_id) is None
                    &&& p.claim_route_error(route, parallel_route_index as int, cards@, old(self).turn.unwrap(), old(self).map.unwrap()) is None
                    &&& old(self).turn_ended(*final(self), k)
                    &&& {
                        let map = old(self).map.unwrap();
                        let e = lookup(map.routes(), route.0, route.1).unwrap();
                        let length = segment(map.routes()[e], parallel_route_index as int).length;
                        &&& final(self).players@[k].public.claimed_routes@
                            == p.public.claimed_routes@.push(
                            ClaimedRoute { route, parallel_route_index, length },
                        )
                        &&& final(self).players@[k].public.cars == p.public.cars - length
                        &&& final(self).players@[k].public.num_train_cards
                            == p.public.num_train_cards - cards@.len()
                        &&& final(self).map.unwrap().routes() == map.routes().update(
                            e,
                            with_claimer(map.routes()[e], parallel_route_index as int, player_id),
                        )
                    }
                },
            },
    {
        match self.has_turn_based_game_started() {
            Ok(_) => {},
            Err(e) => return Err(e),
        }
        let player_index = match self.find_player(player_id) {
            Ok(i) => i,
            Err(e) => return Err(e),
        };
        match self.is_player_turn(player_index) {
            Ok(_) => {},
            Err(e) => return Err(e),
        }
        let ghost players = self.players@;
        let turn = self.turn.unwrap();
        let mut card_dealer = self.card_dealer.take().unwrap();
        let mut map = self.map.take().unwrap();
        let mut player = self.players.remove(player_index);
        proof {
            lemma_total_held_update(players, player_index as int, player);
        }
        let result = player.claim_route(route, parallel_route_index, cards, turn, &mut map, &mut card_dealer);
        self.players.insert(player_index, player);
        self.card_dealer = Some(card_dealer);
        self.map = Some(map);
        proof {
            assert(self.players@ =~= players.update(player_index as int, player));
            lemma_total_held_update(players, player_index as int, player);
        }
        match result {
            Ok(_) => {
                self.end_turn(player_index);
                Ok(())
            },
            Err(e) => {
                proof {
                    assert(self.players@ =~= players);
                }
                Err(e)
            },
        }
    }
}

} // verus!
