//! Train cards, destination cards and the dealer that owns every deck of them.

use crate::city::{City, CityToCity};
use crate::text::{decimal, usize_to_string};
use rand::seq::SliceRandom;
use smallvec::SmallVec;
use std::collections::VecDeque;
use vstd::multiset::Multiset;
use vstd::prelude::*;

verus! {

broadcast use vstd::seq_lib::group_to_multiset_ensures, vstd::multiset::group_multiset_axioms;

/// How many train cards are shown face up.
pub const NUM_OPEN_TRAIN_CARDS: usize = 5;
/// How many wild cards the game has.
pub const NUM_WILD_CARDS: usize = 14;
/// How many cards the game has of each real color.
pub const NUM_NON_WILD_CARDS: usize = 12;
/// From this many wild cards face up, the open deck is reshuffled.
pub const WILD_CARD_LIMIT: usize = 3;
/// How many destination cards are drawn at once.
pub const NUM_DRAWN_DESTINATION_CARDS: usize = 3;
/// How many train cards each player receives when the game starts.
pub const NUM_DRAWN_INITIAL_TRAIN_CARDS: usize = 4;
/// How many times in a row the open deck is reshuffled before the dealer swaps face-up wild
/// cards for real ones instead.
pub const MAX_RESHUFFLE_ROUNDS: usize = 10000;

/// The colors of train cards: eight real colors, and the wild color that matches any of them.
#[derive(Clone, Copy, Debug, PartialEq, Eq, Structural, Hash)]
pub enum TrainColor {
    Black,
    Blue,
    Green,
    Orange,
    Pink,
    Red,
    White,
    Wild,
    Yellow,
}

/// The lower-case name under which a train color is shown to players.
pub open spec fn train_color_name(c: TrainColor) -> Seq<char> {
    match c {
        TrainColor::Black => "black"@,
        TrainColor::Blue => "blue"@,
        TrainColor::Green => "green"@,
        TrainColor::Orange => "orange"@,
        TrainColor::Pink => "pink"@,
        TrainColor::Red => "red"@,
        TrainColor::White => "white"@,
        TrainColor::Wild => "wild"@,
        TrainColor::Yellow => "yellow"@,
    }
}

/// The position of a train color in the order of colors.
pub open spec fn color_index(c: TrainColor) -> nat {
    match c {
        TrainColor::Black => 0,
        TrainColor::Blue => 1,
        TrainColor::Green => 2,
        TrainColor::Orange => 3,
        TrainColor::Pink => 4,
        TrainColor::Red => 5,
        TrainColor::White => 6,
        TrainColor::Wild => 7,
        TrainColor::Yellow => 8,
    }
}

impl TrainColor {
    /// Whether the current color is wild, i.e. matches with any color.
    pub fn is_wild(&self) -> (r: bool)
        ensures
            r == (*self == TrainColor::Wild),
    {
        match self {
            TrainColor::Wild => true,
            _ => false,
        }
    }

    /// The opposite of `is_wild`.
    pub fn is_not_wild(&self) -> (r: bool)
        ensures
            r == (*self != TrainColor::Wild),
    {
        !self.is_wild()
    }

    /// The position of this color in the order of colors.
    pub fn index(&self) -> (r: usize)
        ensures
            r == color_index(*self),
            r < 9,
    {
        match self {
            TrainColor::Black => 0,
            TrainColor::Blue => 1,
            TrainColor::Green => 2,
            TrainColor::Orange => 3,
            TrainColor::Pink => 4,
            TrainColor::Red => 5,
            TrainColor::White => 6,
            TrainColor::Wild => 7,
            TrainColor::Yellow => 8,
        }
    }

    /// The lower-case name of this color.
    pub fn to_string(&self) -> (r: String)
        ensures
            r@ == train_color_name(*self),
    {
        match self {
            TrainColor::Black => String::from_str("black"),
            TrainColor::Blue => String::from_str("blue"),
            TrainColor::Green => String::from_str("green"),
            TrainColor::Orange => String::from_str("orange"),
            TrainColor::Pink => String::from_str("pink"),
            TrainColor::Red => String::from_str("red"),
            TrainColor::White => String::from_str("white"),
            TrainColor::Wild => String::from_str("wild"),
            TrainColor::Yellow => String::from_str("yellow"),
        }
    }
}

/// A destination card: two cities to connect, and the points it is worth.
#[derive(Clone, Copy, Debug, PartialEq, Eq)]
pub struct DestinationCard {
    /// The two cities that must be connected to fulfill the destination card.
    pub destination: CityToCity,
    /// How many points are granted once this card is fulfilled.
    /// If not fulfilled, the same amount is rather subtracted.
    pub points: u8,
}


/// The open deck's slots, held inline in a small vector.
#[verifier::external_body]
#[derive(Debug, PartialEq)]
pub struct OpenDeck {
    slots: SmallVec<[Option<TrainColor>; NUM_OPEN_TRAIN_CARDS]>,
}

/// The slots of an open deck, in order.
pub uninterp spec fn open_slots(deck: OpenDeck) -> Seq<Option<TrainColor>>;

impl OpenDeck {
    /// Relies on smallvec's `SmallVec::new`: a vector with no element.
    #[verifier::external_body]
    pub fn new() -> (r: OpenDeck)
        ensures
            open_slots(r) == Seq::<Option<TrainColor>>::empty(),
    {
        OpenDeck { slots: SmallVec::new() }
    }

    /// Relies on smallvec's `SmallVec::len`: the number of elements.
    #[verifier::external_body]
    pub fn len(&self) -> (r: usize)
        ensures
            r == open_slots(*self).len(),
    {
        self.slots.len()
    }

    /// Relies on smallvec's `SmallVec::push`: the element is appended at the end.
    #[verifier::external_body]
    pub fn push(&mut self, slot: Option<TrainColor>)
        requires
            open_slots(*old(self)).len() < usize::MAX,
        ensures
            open_slots(*final(self)) == open_slots(*old(self)).push(slot),
    {
        self.slots.push(slot)
    }

    /// Relies on smallvec's `Index` for `SmallVec`: the element at a position below the
    /// length.
    #[verifier::external_body]
    pub fn get(&self, i: usize) -> (r: Option<TrainColor>)
        requires
            i < open_slots(*self).len(),
        ensures
            r == open_slots(*self)[i as int],
    {
        self.slots[i]
    }

    /// Relies on smallvec's `IndexMut` for `SmallVec`: the element at a position below the
    /// length is replaced, the others stay.
    #[verifier::external_body]
    pub fn set(&mut self, i: usize, slot: Option<TrainColor>)
        requires
            i < open_slots(*old(self)).len(),
        ensures
            open_slots(*final(self)) == open_slots(*old(self)).update(i as int, slot),
    {
        self.slots[i] = slot;
    }

    /// An open deck with the given slots.
    pub fn from_slots(slots: [Option<TrainColor>; NUM_OPEN_TRAIN_CARDS]) -> (r: OpenDeck)
        ensures
            open_slots(r) == slots@,
    {
        let mut deck = OpenDeck::new();
        let mut i: usize = 0;
        while i < NUM_OPEN_TRAIN_CARDS
            invariant
                i <= NUM_OPEN_TRAIN_CARDS,
                open_slots(deck) == slots@.subrange(0, i as int),
            decreases NUM_OPEN_TRAIN_CARDS - i,
        {
            deck.push(slots[i]);
            i = i + 1;
            proof {
                assert(open_slots(deck) =~= slots@.subrange(0, i as int));
            }
        }
        proof {
            assert(slots@.subrange(0, i as int) =~= slots@);
        }
        deck
    }

    /// The slots of the deck, in order.
    pub fn to_vec(&self) -> (r: Vec<Option<TrainColor>>)
        ensures
            r@ == open_slots(*self),
    {
        let mut slots: Vec<Option<TrainColor>> = Vec::new();
        let mut i: usize = 0;
        while i < self.len()
            invariant
                i <= open_slots(*self).len(),
                slots@ == open_slots(*self).subrange(0, i as int),
            decreases open_slots(*self).len() - i,
        {
            slots.push(self.get(i));
            i = i + 1;
            proof {
                assert(slots@ =~= open_slots(*self).subrange(0, i as int));
            }
        }
        proof {
            assert(slots@ =~= open_slots(*self));
        }
        slots
    }
}

/// Destination cards in hand: those just drawn, or those being returned, held inline.
#[verifier::external_body]
#[derive(Debug, PartialEq)]
pub struct DestinationHand {
    cards: SmallVec<[DestinationCard; NUM_DRAWN_DESTINATION_CARDS]>,
}

/// The cards of a hand of destination cards, in order.
pub uninterp spec fn hand_cards(hand: DestinationHand) -> Seq<DestinationCard>;

impl DestinationHand {
    /// Relies on smallvec's `SmallVec::new`: a vector with no element.
    #[verifier::external_body]
    pub fn new() -> (r: DestinationHand)
        ensures
            hand_cards(r) == Seq::<DestinationCard>::empty(),
    {
        DestinationHand { cards: SmallVec::new() }
    }

    /// Relies on smallvec's `SmallVec::len`: the number of elements.
    #[verifier::external_body]
    pub fn len(&self) -> (r: usize)
        ensures
            r == hand_cards(*self).len(),
    {
        self.cards.len()
    }

    /// Relies on smallvec's `SmallVec::push`: the element is appended at the end.
    #[verifier::external_body]
    pub fn push(&mut self, card: DestinationCard)
        requires
            hand_cards(*old(self)).len() < usize::MAX,
        ensures
            hand_cards(*final(self)) == hand_cards(*old(self)).push(card),
    {
        self.cards.push(card)
    }

    /// Relies on smallvec's `Index` for `SmallVec`: the element at a position below the
    /// length.
    #[verifier::external_body]
    pub fn get(&self, i: usize) -> (r: DestinationCard)
        requires
            i < hand_cards(*self).len(),
        ensures
            r == hand_cards(*self)[i as int],
    {
        self.cards[i]
    }

    /// Whether the hand holds no card.
    pub fn is_empty(&self) -> (r: bool)
        ensures
            r == (hand_cards(*self).len() == 0),
    {
        self.len() == 0
    }

    /// A hand with the given cards, in order.
    pub fn from_vec(cards: &Vec<DestinationCard>) -> (r: DestinationHand)
        ensures
            hand_cards(r) == cards@,
    {
        let mut hand = DestinationHand::new();
        let mut i: usize = 0;
        while i < cards.len()
            invariant
                i <= cards@.len(),
                hand_cards(hand) == cards@.subrange(0, i as int),
            decreases cards@.len() - i,
        {
            hand.push(cards[i]);
            i = i + 1;
            proof {
                assert(hand_cards(hand) =~= cards@.subrange(0, i as int));
            }
        }
        proof {
            assert(cards@.subrange(0, i as int) =~= cards@);
        }
        hand
    }

    /// The cards of the hand, in order.
    pub fn to_vec(&self) -> (r: Vec<DestinationCard>)
        ensures
            r@ == hand_cards(*self),
    {
        let mut cards: Vec<DestinationCard> = Vec::new();
        let mut i: usize = 0;
        while i < self.len()
            invariant
                i <= hand_cards(*self).len(),
                cards@ == hand_cards(*self).subrange(0, i as int),
            decreases hand_cards(*self).len() - i,
        {
            cards.push(self.get(i));
            i = i + 1;
            proof {
                assert(cards@ =~= hand_cards(*self).subrange(0, i as int));
            }
        }
        proof {
            assert(cards@ =~= hand_cards(*self));
        }
        cards
    }
}

/// The train cards shown in the open deck, in slot order, skipping empty slots.
pub open spec fn open_cards(open: Seq<Option<TrainColor>>) -> Seq<TrainColor>
    decreases open.len(),
{
    if open.len() == 0 {
        Seq::empty()
    } else {
        let rest = open_cards(open.drop_last());
        match open.last() {
            Some(c) => rest.push(c),
            None => rest,
        }
    }
}

/// The number of real-colored (non-wild) cards in a multiset of train cards.
pub open spec fn num_real(m: Multiset<TrainColor>) -> int {
    m.len() - m.count(TrainColor::Wild)
}

/// The game's census of train cards: twelve of each real color and fourteen wild cards.
pub open spec fn is_full_census(m: Multiset<TrainColor>) -> bool {
    forall|c: TrainColor|
        #[trigger] m.count(c) == if c == TrainColor::Wild {
            NUM_WILD_CARDS as nat
        } else {
            NUM_NON_WILD_CARDS as nat
        }
}

/// The open deck after one more slot, filled or empty, is appended.
proof fn lemma_open_cards_push(open: Seq<Option<TrainColor>>, slot: Option<TrainColor>)
    ensures
        open_cards(open.push(slot)) == match slot {
            Some(c) => open_cards(open).push(c),
            None => open_cards(open),
        },
{
    assert(open.push(slot).drop_last() =~= open);
}

/// Removing the top card of a deck takes exactly that card out of its multiset.
proof fn lemma_drop_last_multiset(s: Seq<TrainColor>)
    requires
        s.len() > 0,
    ensures
        s.to_multiset() == s.drop_last().to_multiset().insert(s.last()),
{
    assert(s.drop_last().push(s.last()) =~= s);
}

/// The open deck after one slot is replaced.
proof fn lemma_open_cards_update(open: Seq<Option<TrainColor>>, i: int, slot: Option<TrainColor>)
    requires
        0 <= i < open.len(),
    ensures
        open_cards(open.update(i, slot)).to_multiset() == {
            let without = match open[i] {
                Some(c) => open_cards(open).to_multiset().remove(c),
                None => open_cards(open).to_multiset(),
            };
            match slot {
                Some(c) => without.insert(c),
                None => without,
            }
        },
        match open[i] {
            Some(c) => open_cards(open).to_multiset().count(c) > 0,
            None => true,
        },
    decreases open.len(),
{
    let u = open.update(i, slot);
    if i == open.len() - 1 {
        assert(u.drop_last() =~= open.drop_last());
    } else {
        assert(u.drop_last() =~= open.drop_last().update(i, slot));
        lemma_open_cards_update(open.drop_last(), i, slot);
    }
}

/// A destination card between two cities.
pub open spec fn dest(a: City, b: City, points: u8) -> DestinationCard {
    DestinationCard { destination: (a, b), points }
}

/// The thirty destination cards of the game.
pub open spec fn destination_catalog() -> Seq<DestinationCard> {
    seq![
        dest(City::Boston, City::Miami, 12),
        dest(City::Calgary, City::Phoenix, 13),
        dest(City::Calgary, City::SaltLakeCity, 7),
        dest(City::Chicago, City::NewOrleans, 7),
        dest(City::Chicago, City::SantaFe, 9),
        dest(City::Dallas, City::NewYork, 11),
        dest(City::Denver, City::ElPaso, 4),
        dest(City::Denver, City::Pittsburgh, 11),
        dest(City::Duluth, City::ElPaso, 10),
        dest(City::Duluth, City::Houston, 8),
        dest(City::Helena, City::LosAngeles, 8),
        dest(City::KansasCity, City::Houston, 5),
        dest(City::LosAngeles, City::Chicago, 16),
        dest(City::LosAngeles, City::Miami, 20),
        dest(City::LosAngeles, City::NewYork, 21),
        dest(City::Montreal, City::Atlanta, 9),
        dest(City::Montreal, City::NewOrleans, 13),
        dest(City::NewYork, City::Atlanta, 6),
        dest(City::Portland, City::Nashville, 17),
        dest(City::Portland, City::Phoenix, 11),
        dest(City::SanFrancisco, City::Atlanta, 17),
        dest(City::SaultStMarie, City::Nashville, 8),
        dest(City::SaultStMarie, City::OklahomaCity, 9),
        dest(City::Seattle, City::LosAngeles, 9),
        dest(City::Seattle, City::NewYork, 22),
        dest(City::Toronto, City::Miami, 10),
        dest(City::Vancouver, City::Montreal, 20),
        dest(City::Vancouver, City::SantaFe, 13),
        dest(City::Winnipeg, City::Houston, 12),
        dest(City::Winnipeg, City::LittleRock, 11),
    ]
}


/// Conservation of train cards: if the dealer's cards and the cards held outside of it make
/// up the game's census, they still do after an operation that hands out `drawn` cards and
/// takes back `returned` cards from those held outside.
pub proof fn lemma_census_conserved(
    before: CardDealer,
    after: CardDealer,
    held: Multiset<TrainColor>,
    drawn: Multiset<TrainColor>,
    returned: Multiset<TrainColor>,
)
    requires
        is_full_census(before.census().add(held)),
        returned.subset_of(held),
        after.census().add(drawn) == before.census().add(returned),
    ensures
        is_full_census(after.census().add(held.sub(returned).add(drawn))),
{
    let total = after.census().add(held.sub(returned).add(drawn));
    assert forall|c: TrainColor| #[trigger] total.count(c) == before.census().add(held).count(c) by {
        assert(after.census().add(drawn).count(c) == before.census().add(returned).count(c));
        assert(returned.count(c) <= held.count(c));
        assert(held.sub(returned).count(c) == held.count(c) - returned.count(c));
        assert(held.sub(returned).add(drawn).count(c) == held.count(c) - returned.count(c)
            + drawn.count(c));
        assert(total.count(c) == after.census().count(c) + held.sub(returned).add(drawn).count(c));
        assert(after.census().add(drawn).count(c) == after.census().count(c) + drawn.count(c));
        assert(before.census().add(returned).count(c) == before.census().count(c) + returned.count(
            c,
        ));
        assert(before.census().add(held).count(c) == before.census().count(c) + held.count(c));
    }
}

/// An open deck with no wild slot shows no wild card.
proof fn lemma_open_cards_no_wild(open: Seq<Option<TrainColor>>)
    requires
        forall|j: int| 0 <= j < open.len() ==> #[trigger] open[j] != Some(TrainColor::Wild),
    ensures
        open_cards(open).to_multiset().count(TrainColor::Wild) == 0,
    decreases open.len(),
{
    if open.len() > 0 {
        let rest = open.drop_last();
        assert forall|j: int| 0 <= j < rest.len() implies #[trigger] rest[j] != Some(
            TrainColor::Wild,
        ) by {
            assert(rest[j] == open[j]);
        }
        lemma_open_cards_no_wild(rest);
    }
}

/// The open deck shows at most one card per slot.
proof fn lemma_open_cards_bound(open: Seq<Option<TrainColor>>)
    ensures
        open_cards(open).len() <= open.len(),
    decreases open.len(),
{
    if open.len() > 0 {
        lemma_open_cards_bound(open.drop_last());
    }
}

/// A deck of wild cards only holds no real card.
proof fn lemma_all_wild(deck: Seq<TrainColor>)
    requires
        forall|k: int| 0 <= k < deck.len() ==> #[trigger] deck[k] == TrainColor::Wild,
    ensures
        num_real(deck.to_multiset()) == 0,
    decreases deck.len(),
{
    if deck.len() > 0 {
        let rest = deck.drop_last();
        assert forall|k: int| 0 <= k < rest.len() implies #[trigger] rest[k] == TrainColor::Wild by {
            assert(rest[k] == deck[k]);
        }
        lemma_all_wild(rest);
        lemma_drop_last_multiset(deck);
    }
}

/// Entity in charge of dealing as well as shuffling destination and train cards.
pub struct CardDealer {
    /// The train cards shown face up; a slot is empty only once no card is left to fill it.
    pub open_train_card_deck: OpenDeck,
    /// The face-down train cards; the top of the deck is the end of the vector.
    pub close_train_card_deck: Vec<TrainColor>,
    /// The train cards used so far, waiting to be shuffled back into the close deck.
    pub discarded_train_card_deck: Vec<TrainColor>,
    /// The destination cards; draws take from the back, discarded cards go to the front.
    pub destination_card_deck: VecDeque<DestinationCard>,
}

/// The public digest of a card dealer: the open deck, and the sizes of the other decks.
pub struct CardDealerState {
    /// The open deck, slot by slot.
    pub open_train_card_deck: Vec<Option<TrainColor>>,
    /// How many cards the close deck holds.
    pub close_train_card_deck_size: usize,
    /// How many cards the discarded deck holds.
    pub discarded_train_card_deck_size: usize,
    /// How many cards the destination deck holds.
    pub destination_card_deck_size: usize,
}

/// Relies on rand's `SliceRandom::shuffle` with the thread-local generator: it only swaps
/// elements of the vector, so the result is a permutation of it. (The thread-local
/// generator panics if the operating system cannot seed it.)
#[verifier::external_body]
pub(crate) fn shuffle<T>(v: &mut Vec<T>)
    ensures
        final(v)@.len() == old(v)@.len(),
        final(v)@.to_multiset() == old(v)@.to_multiset(),
{
    v.shuffle(&mut rand::thread_rng());
}

/// Appends `n` copies of a card to a deck.
fn push_copies(v: &mut Vec<TrainColor>, c: TrainColor, n: usize)
    requires
        old(v)@.len() + n <= usize::MAX,
    ensures
        final(v)@.len() == old(v)@.len() + n,
        forall|d: TrainColor|
            #[trigger] final(v)@.to_multiset().count(d) == old(v)@.to_multiset().count(d) + if d
                == c {
                n as nat
            } else {
                0
            },
{
    let ghost start = v@;
    let mut k: usize = 0;
    while k < n
        invariant
            k <= n,
            v@.len() == start.len() + k,
            start.len() + n <= usize::MAX,
            forall|d: TrainColor|
                #[trigger] v@.to_multiset().count(d) == start.to_multiset().count(d) + if d == c {
                    k as nat
                } else {
                    0
                },
        decreases n - k,
    {
        v.push(c);
        k = k + 1;
    }
}

impl CardDealer {
    /// All train cards held by the dealer: those of the open deck, the close deck and the
    /// discarded deck.
    pub open spec fn census(&self) -> Multiset<TrainColor> {
        open_cards(open_slots(self.open_train_card_deck)).to_multiset().add(self.pool())
    }

    /// The train cards of the close deck and of the discarded deck.
    pub open spec fn pool(&self) -> Multiset<TrainColor> {
        self.close_train_card_deck@.to_multiset().add(self.discarded_train_card_deck@.to_multiset())
    }

    /// The open deck always has its five slots, and the number of cards stays far from the
    /// machine's limit.
    pub open spec fn wf(&self) -> bool {
        &&& open_slots(self.open_train_card_deck).len() == NUM_OPEN_TRAIN_CARDS
        &&& self.census().len() <= usize::MAX - 8
    }

    /// How many wild cards are face up.
    pub open spec fn num_open_wilds(&self) -> nat {
        open_cards(open_slots(self.open_train_card_deck)).to_multiset().count(TrainColor::Wild)
    }

    /// Whether the open deck holds too many wild cards while enough real cards are left to
    /// replace them.
    pub open spec fn needs_reshuffle(&self) -> bool {
        &&& self.num_open_wilds() >= WILD_CARD_LIMIT
        &&& num_real(self.census()) >= WILD_CARD_LIMIT
    }

    /// The wild-card cap: fewer than three wild cards face up, or fewer than three real
    /// cards left in the decks.
    pub open spec fn wild_cap_holds(&self) -> bool {
        !self.needs_reshuffle()
    }

    /// The same decks, card for card.
    pub open spec fn same_as(&self, other: &CardDealer) -> bool {
        &&& open_slots(self.open_train_card_deck) == open_slots(other.open_train_card_deck)
        &&& self.close_train_card_deck@ == other.close_train_card_deck@
        &&& self.discarded_train_card_deck@ == other.discarded_train_card_deck@
        &&& self.destination_card_deck@ == other.destination_card_deck@
    }

    /// The close deck is empty only when the discarded deck is empty too.
    pub open spec fn stocked(&self) -> bool {
        self.close_train_card_deck@.len() > 0 || self.discarded_train_card_deck@.len() == 0
    }

    /// How many train cards are left to be drawn from the close deck, counting those that
    /// will be shuffled back into it.
    pub open spec fn supply(&self) -> nat {
        self.close_train_card_deck@.len() + self.discarded_train_card_deck@.len()
    }

    fn count_open_wilds(&self) -> (r: (usize, usize))
        requires
            self.wf(),
        ensures
            r.0 == self.num_open_wilds(),
            r.1 == open_cards(open_slots(self.open_train_card_deck)).len(),
            r.0 <= r.1 <= NUM_OPEN_TRAIN_CARDS,
    {
        let mut wilds: usize = 0;
        let mut cards: usize = 0;
        let mut i: usize = 0;
        while i < self.open_train_card_deck.len()
            invariant
                self.wf(),
                i <= open_slots(self.open_train_card_deck).len(),
                wilds == open_cards(open_slots(self.open_train_card_deck).subrange(0, i as int)).to_multiset().count(
                    TrainColor::Wild,
                ),
                cards == open_cards(open_slots(self.open_train_card_deck).subrange(0, i as int)).len(),
                wilds <= cards <= i,
            decreases open_slots(self.open_train_card_deck).len() - i,
        {
            let ghost open = open_slots(self.open_train_card_deck);
            proof {
                assert(open.subrange(0, i + 1) =~= open.subrange(0, i as int).push(open[i as int]));
                lemma_open_cards_push(open.subrange(0, i as int), open[i as int]);
            }
            match self.open_train_card_deck.get(i) {
                Some(c) => {
                    if c.is_wild() {
                        wilds = wilds + 1;
                    }
                    cards = cards + 1;
                },
                None => {},
            }
            i = i + 1;
        }
        proof {
            assert(open_slots(self.open_train_card_deck).subrange(0, i as int) =~= open_slots(self.open_train_card_deck));
        }
        (wilds, cards)
    }

    fn count_real(deck: &Vec<TrainColor>) -> (r: usize)
        ensures
            r == num_real(deck@.to_multiset()),
            r <= deck@.len(),
    {
        let mut n: usize = 0;
        let mut i: usize = 0;
        while i < deck.len()
            invariant
                i <= deck@.len(),
                n == num_real(deck@.subrange(0, i as int).to_multiset()),
                n <= i,
            decreases deck@.len() - i,
        {
            proof {
                assert(deck@.subrange(0, i + 1) =~= deck@.subrange(0, i as int).push(deck@[i as int]));
            }
            if deck[i].is_not_wild() {
                n = n + 1;
            }
            i = i + 1;
        }
        proof {
            assert(deck@.subrange(0, i as int) =~= deck@);
        }
        n
    }

    fn should_reshuffle_open_train_card_deck(&self) -> (r: bool)
        requires
            self.wf(),
            self.supply() <= usize::MAX - 8,
        ensures
            r == self.needs_reshuffle(),
    {
        let (wilds, cards) = self.count_open_wilds();
        if wilds < WILD_CARD_LIMIT {
            return false;
        }
        let real_closed = Self::count_real(&self.close_train_card_deck);
        let real_discarded = Self::count_real(&self.discarded_train_card_deck);
        (cards - wilds) + real_closed + real_discarded >= WILD_CARD_LIMIT
    }

    /// If the close deck is empty, shuffles the discarded deck and makes it the close deck.
    fn maybe_reshuffle_and_swap_discarded_deck(&mut self)
        ensures
            final(self).open_train_card_deck == old(self).open_train_card_deck,
            final(self).destination_card_deck@ == old(self).destination_card_deck@,
            final(self).pool() == old(self).pool(),
            final(self).census() == old(self).census(),
            final(self).supply() == old(self).supply(),
            final(self).stocked(),
            old(self).close_train_card_deck@.len() > 0 ==> final(self).close_train_card_deck
                == old(self).close_train_card_deck && final(self).discarded_train_card_deck
                == old(self).discarded_train_card_deck,
            old(self).close_train_card_deck@.len() == 0 ==> final(self).discarded_train_card_deck@.len() == 0,
            old(self).close_train_card_deck@.len() == 0 ==> final(self).close_train_card_deck@.to_multiset()
                == old(self).discarded_train_card_deck@.to_multiset(),
    {
        if self.close_train_card_deck.len() > 0 || self.discarded_train_card_deck.len() == 0 {
            return;
        }
        shuffle(&mut self.discarded_train_card_deck);
        std::mem::swap(&mut self.close_train_card_deck, &mut self.discarded_train_card_deck);
        proof {
            assert(self.discarded_train_card_deck@ =~= Seq::<TrainColor>::empty());
            assert(self.pool() =~= old(self).pool());
        }
    }

    /// Takes the top card of the close deck, first shuffling the discarded deck into it if
    /// it is empty; afterwards the close deck is empty only if the discarded deck is too.
    fn take_top_card(&mut self) -> (r: Option<TrainColor>)
        ensures
            final(self).open_train_card_deck == old(self).open_train_card_deck,
            final(self).destination_card_deck@ == old(self).destination_card_deck@,
            final(self).stocked(),
            match r {
                Some(c) => {
                    &&& final(self).pool().insert(c) == old(self).pool()
                    &&& final(self).supply() + 1 == old(self).supply()
                },
                None => {
                    &&& old(self).supply() == 0
                    &&& final(self).pool() == old(self).pool()
                    &&& final(self).supply() == 0
                },
            },
    {
        self.maybe_reshuffle_and_swap_discarded_deck();
        let ghost mid = self.pool();
        let ghost closed = self.close_train_card_deck@;
        let r = self.close_train_card_deck.pop();
        match r {
            Some(c) => {
                proof {
                    lemma_drop_last_multiset(closed);
                    assert(self.pool().insert(c) =~= mid);
                }
            },
            None => {},
        }
        self.maybe_reshuffle_and_swap_discarded_deck();
        r
    }

    /// Moves every open card to the discarded deck, and deals five new open cards.
    fn reshuffle_once(&mut self)
        requires
            old(self).wf(),
        ensures
            final(self).wf(),
            final(self).census() == old(self).census(),
            final(self).destination_card_deck@ == old(self).destination_card_deck@,
            final(self).stocked(),
            old(self).census().len() >= NUM_OPEN_TRAIN_CARDS ==> open_cards(
                open_slots(final(self).open_train_card_deck),
            ).len() == NUM_OPEN_TRAIN_CARDS,
    {
        let ghost total = self.census();
        let ghost open = open_slots(self.open_train_card_deck);
        let ghost old_pool = self.pool();
        let mut i: usize = 0;
        proof {
            assert(open_cards(open.subrange(0, 0)) =~= Seq::<TrainColor>::empty());
            assert(self.pool() =~= old_pool.add(open_cards(open.subrange(0, 0)).to_multiset()));
        }
        while i < NUM_OPEN_TRAIN_CARDS
            invariant
                i <= NUM_OPEN_TRAIN_CARDS,
                open_slots(self.open_train_card_deck) == open,
                open.len() == NUM_OPEN_TRAIN_CARDS,
                self.pool() == old_pool.add(open_cards(open.subrange(0, i as int)).to_multiset()),
                self.destination_card_deck@ == old(self).destination_card_deck@,
            decreases NUM_OPEN_TRAIN_CARDS - i,
        {
            proof {
                assert(open.subrange(0, i + 1) =~= open.subrange(0, i as int).push(open[i as int]));
                lemma_open_cards_push(open.subrange(0, i as int), open[i as int]);
            }
            match self.open_train_card_deck.get(i) {
                Some(c) => {
                    let ghost disc = self.discarded_train_card_deck@;
                    let ghost pool_before = self.pool();
                    self.discarded_train_card_deck.push(c);
                    proof {
                        assert(open_cards(open.subrange(0, i + 1)) == open_cards(
                            open.subrange(0, i as int),
                        ).push(c));
                        assert(self.discarded_train_card_deck@ == disc.push(c));
                        assert(disc.push(c).to_multiset() =~= disc.to_multiset().insert(c));
                        let prev = open_cards(open.subrange(0, i as int));
                        assert(prev.push(c).to_multiset() =~= prev.to_multiset().insert(c));
                        assert(self.pool() =~= pool_before.insert(c));
                        assert(old_pool.add(prev.to_multiset().insert(c)) =~= old_pool.add(
                            prev.to_multiset(),
                        ).insert(c));
                        assert(self.pool() =~= old_pool.add(
                            open_cards(open.subrange(0, i + 1)).to_multiset(),
                        ));
                    }
                },
                None => {},
            }
            i = i + 1;
        }
        proof {
            assert(open.subrange(0, 5) =~= open);
            assert(self.pool() =~= total);
        }
        let mut new_open = OpenDeck::new();
        let mut k: usize = 0;
        proof {
            assert(open_cards(open_slots(new_open)) =~= Seq::<TrainColor>::empty());
            assert(open_cards(open_slots(new_open)).to_multiset().add(self.pool()) =~= total);
        }
        while k < NUM_OPEN_TRAIN_CARDS
            invariant
                k <= NUM_OPEN_TRAIN_CARDS,
                open_slots(new_open).len() == k,
                open_cards(open_slots(new_open)).to_multiset().add(self.pool()) == total,
                open_cards(open_slots(new_open)).len() + self.supply() == total.len(),
                total.len() >= NUM_OPEN_TRAIN_CARDS ==> open_cards(open_slots(new_open)).len() == k,
                self.destination_card_deck@ == old(self).destination_card_deck@,
                k > 0 ==> self.stocked(),
            decreases NUM_OPEN_TRAIN_CARDS - k,
        {
            let ghost before = open_slots(new_open);
            let c = self.take_top_card();
            new_open.push(c);
            proof {
                lemma_open_cards_push(before, c);
                match c {
                    Some(x) => {
                        assert(open_cards(open_slots(new_open)).to_multiset().add(self.pool()) =~= total);
                    },
                    None => {},
                }
            }
            k = k + 1;
        }
        self.open_train_card_deck = new_open;
    }

    fn find_open_wild(&self) -> (r: usize)
        requires
            self.wf(),
            self.num_open_wilds() > 0,
        ensures
            r < NUM_OPEN_TRAIN_CARDS,
            open_slots(self.open_train_card_deck)[r as int] == Some(TrainColor::Wild),
    {
        let mut i: usize = 0;
        while i < self.open_train_card_deck.len()
            invariant
                self.wf(),
                self.num_open_wilds() > 0,
                i <= NUM_OPEN_TRAIN_CARDS,
                forall|j: int|
                    0 <= j < i ==> #[trigger] open_slots(self.open_train_card_deck)[j] != Some(
                        TrainColor::Wild,
                    ),
            decreases NUM_OPEN_TRAIN_CARDS - i,
        {
            if self.open_train_card_deck.get(i) == Some(TrainColor::Wild) {
                return i;
            }
            i = i + 1;
        }
        proof {
            lemma_open_cards_no_wild(open_slots(self.open_train_card_deck));
        }
        0
    }

    fn find_real(deck: &Vec<TrainColor>) -> (r: Option<usize>)
        ensures
            match r {
                Some(j) => j < deck@.len() && deck@[j as int] != TrainColor::Wild,
                None => num_real(deck@.to_multiset()) == 0,
            },
    {
        let mut j: usize = 0;
        while j < deck.len()
            invariant
                j <= deck@.len(),
                forall|k: int| 0 <= k < j ==> #[trigger] deck@[k] == TrainColor::Wild,
            decreases deck@.len() - j,
        {
            if deck[j].is_not_wild() {
                return Some(j);
            }
            j = j + 1;
        }
        proof {
            lemma_all_wild(deck@);
        }
        None
    }

    /// Swaps face-up wild cards with real cards of the close or discarded deck, one at a
    /// time, until the wild-card cap holds.
    fn replace_open_wilds(&mut self)
        requires
            old(self).wf(),
        ensures
            final(self).wf(),
            final(self).wild_cap_holds(),
            final(self).census() == old(self).census(),
            final(self).destination_card_deck@ == old(self).destination_card_deck@,
            final(self).close_train_card_deck@.len() == old(self).close_train_card_deck@.len(),
            final(self).discarded_train_card_deck@.len() == old(self).discarded_train_card_deck@.len(),
            open_cards(open_slots(final(self).open_train_card_deck)).len() == open_cards(
                open_slots(old(self).open_train_card_deck),
            ).len(),
    {
        while self.should_reshuffle_open_train_card_deck()
            invariant
                self.wf(),
                self.census() == old(self).census(),
                self.destination_card_deck@ == old(self).destination_card_deck@,
                self.close_train_card_deck@.len() == old(self).close_train_card_deck@.len(),
                self.discarded_train_card_deck@.len() == old(self).discarded_train_card_deck@.len(),
                open_cards(open_slots(self.open_train_card_deck)).len() == open_cards(
                    open_slots(old(self).open_train_card_deck),
                ).len(),
            decreases self.num_open_wilds(),
        {
            let i = self.find_open_wild();
            let ghost open = open_slots(self.open_train_card_deck);
            let ghost before = self.census();
            let ghost wilds = self.num_open_wilds();
            proof {
                lemma_open_cards_bound(open);
            }
            match Self::find_real(&self.close_train_card_deck) {
                Some(j) => {
                    let swapped = self.close_train_card_deck[j];
                    let ghost closed = self.close_train_card_deck@;
                    self.open_train_card_deck.set(i, Some(swapped));
                    self.close_train_card_deck.set(j, TrainColor::Wild);
                    proof {
                        lemma_open_cards_update(open, i as int, Some(swapped));
                        assert(closed.update(j as int, TrainColor::Wild).to_multiset()
                            =~= closed.to_multiset().insert(TrainColor::Wild).remove(swapped));
                        assert(self.census() =~= before);
                        assert(self.num_open_wilds() == wilds - 1);
                    }
                },
                None => {
                    match Self::find_real(&self.discarded_train_card_deck) {
                        Some(j) => {
                            let swapped = self.discarded_train_card_deck[j];
                            let ghost discarded = self.discarded_train_card_deck@;
                            self.open_train_card_deck.set(i, Some(swapped));
                            self.discarded_train_card_deck.set(j, TrainColor::Wild);
                            proof {
                                lemma_open_cards_update(open, i as int, Some(swapped));
                                assert(discarded.update(j as int, TrainColor::Wild).to_multiset()
                                    =~= discarded.to_multiset().insert(TrainColor::Wild).remove(
                                    swapped,
                                ));
                                assert(self.census() =~= before);
                                assert(self.num_open_wilds() == wilds - 1);
                            }
                        },
                        None => {
                            proof {
                                let m = open_cards(open).to_multiset();
                                assert(m.len() <= 5);
                                assert(num_real(self.census()) == (m.len() - m.count(
                                    TrainColor::Wild,
                                )) + num_real(self.close_train_card_deck@.to_multiset())
                                    + num_real(self.discarded_train_card_deck@.to_multiset()));
                                assert(false);
                            }
                        },
                    }
                },
            }
        }
    }

    /// Restores the wild-card cap: while the open deck holds three or more wild cards and
    /// three or more real cards are left in the decks, the open deck is discarded and dealt
    /// again, up to a bounded number of rounds; if the cap still fails then, face-up wild
    /// cards are swapped for real cards of the other decks. Returns whether it reshuffled.
    pub fn maybe_reshuffle_open_train_card_deck(&mut self) -> (r: bool)
        requires
            old(self).wf(),
        ensures
            final(self).wf(),
            r == old(self).needs_reshuffle(),
            !r ==> final(self).same_as(old(self)),
            r ==> final(self).stocked(),
            r ==> open_cards(open_slots(final(self).open_train_card_deck)).len() == NUM_OPEN_TRAIN_CARDS,
            final(self).census() == old(self).census(),
            final(self).destination_card_deck@ == old(self).destination_card_deck@,
            final(self).wild_cap_holds(),
    {
        if !self.should_reshuffle_open_train_card_deck() {
            return false;
        }
        let mut rounds: usize = 0;
        let mut again = true;
        proof {
            let m = open_cards(open_slots(self.open_train_card_deck)).to_multiset();
            assert(self.census().count(TrainColor::Wild) >= m.count(TrainColor::Wild));
        }
        while again && rounds < MAX_RESHUFFLE_ROUNDS
            invariant
                self.wf(),
                self.census() == old(self).census(),
                self.destination_card_deck@ == old(self).destination_card_deck@,
                again == self.needs_reshuffle(),
                rounds > 0 ==> self.stocked(),
                rounds > 0 ==> open_cards(open_slots(self.open_train_card_deck)).len() == NUM_OPEN_TRAIN_CARDS,
                self.census().len() >= NUM_OPEN_TRAIN_CARDS,
                rounds == 0 ==> again,
                rounds <= MAX_RESHUFFLE_ROUNDS,
            decreases MAX_RESHUFFLE_ROUNDS - rounds,
        {
            self.reshuffle_once();
            rounds = rounds + 1;
            again = self.should_reshuffle_open_train_card_deck();
        }
        if again {
            self.replace_open_wilds();
        }
        true
    }

    /// The open deck after slot `card_index` is refilled from the top of the close deck, or
    /// emptied when the close deck is empty.
    pub open spec fn refilled_open(&self, card_index: int) -> Seq<Option<TrainColor>> {
        open_slots(self.open_train_card_deck).update(
            card_index,
            if self.close_train_card_deck@.len() > 0 {
                Some(self.close_train_card_deck@.last())
            } else {
                None
            },
        )
    }

    /// Whether, once the card at `card_index` is taken and its slot refilled, the open deck
    /// holds three or more wild cards while three or more real cards are left.
    pub open spec fn refill_needs_reshuffle(&self, card_index: int, card: TrainColor) -> bool {
        &&& open_cards(self.refilled_open(card_index)).to_multiset().count(TrainColor::Wild)
            >= WILD_CARD_LIMIT
        &&& num_real(self.census().remove(card)) >= WILD_CARD_LIMIT
    }

    /// Whether the close deck is not empty, or the open deck shows a real-colored card.
    pub open spec fn can_draw_again(&self) -> bool {
        self.close_train_card_deck@.len() > 0 || exists|i: int|
            0 <= i < open_slots(self.open_train_card_deck).len()
                && #[trigger] open_slots(self.open_train_card_deck)[i] is Some
                && open_slots(self.open_train_card_deck)[i] != Some(TrainColor::Wild)
    }

    /// Whether the open deck needs a reshuffle once the given cards are discarded.
    pub open spec fn discard_needs_reshuffle(&self, cards: Seq<TrainColor>) -> bool {
        &&& self.num_open_wilds() >= WILD_CARD_LIMIT
        &&& num_real(self.census().add(cards.to_multiset())) >= WILD_CARD_LIMIT
    }

    /// The message of a failed draw from the open deck, if it fails.
    pub open spec fn open_draw_error(&self, card_index: int, is_second_draw: bool) -> Option<
        Seq<char>,
    > {
        let open = open_slots(self.open_train_card_deck);
        if card_index >= open.len() {
            Some(
                "Card looked up at index "@ + decimal(card_index as nat) + " is out of bounds (size "@
                    + decimal(open.len()) + ")."@,
            )
        } else if open[card_index] is None {
            Some("No cards found at index "@ + decimal(card_index as nat) + "."@)
        } else if is_second_draw && open[card_index] == Some(TrainColor::Wild) {
            Some("Cannot draw a wild card after having already drawn a train card this turn."@)
        } else {
            None
        }
    }

    /// Draws from the top of the close train card deck, and returns the card.
    ///
    /// If the close deck is empty after the draw, the discarded deck is shuffled and becomes
    /// the close deck.
    pub fn draw_from_close_train_card_deck(&mut self) -> (r: Result<TrainColor, String>)
        ensures
            final(self).open_train_card_deck == old(self).open_train_card_deck,
            final(self).destination_card_deck@ == old(self).destination_card_deck@,
            old(self).stocked() ==> final(self).stocked(),
            old(self).wild_cap_holds() ==> final(self).wild_cap_holds(),
            r is Err <==> old(self).close_train_card_deck@.len() == 0,
            match r {
                Ok(c) => {
                    &&& c == old(self).close_train_card_deck@.last()
                    &&& final(self).pool().insert(c) == old(self).pool()
                    &&& final(self).census().insert(c) == old(self).census()
                    &&& final(self).supply() + 1 == old(self).supply()
                    &&& final(self).stocked()
                    &&& old(self).close_train_card_deck@.len() == 1 ==> {
                        &&& final(self).discarded_train_card_deck@.len() == 0
                        &&& final(self).close_train_card_deck@.to_multiset() == old(self).discarded_train_card_deck@.to_multiset()
                    }
                    &&& old(self).close_train_card_deck@.len() > 1 ==> {
                        &&& final(self).close_train_card_deck@
                            == old(self).close_train_card_deck@.drop_last()
                        &&& final(self).discarded_train_card_deck
                            == old(self).discarded_train_card_deck
                    }
                },
                Err(e) => {
                    &&& e@ == "There is no cards left in the close train card deck."@
                    &&& final(self).same_as(old(self))
                },
            },
    {
        let ghost before = self.pool();
        let ghost closed = self.close_train_card_deck@;
        match self.close_train_card_deck.pop() {
            Some(card_drawn) => {
                proof {
                    lemma_drop_last_multiset(closed);
                    assert(self.pool().insert(card_drawn) =~= before);
                }
                self.maybe_reshuffle_and_swap_discarded_deck();
                proof {
                    assert(self.census().insert(card_drawn) =~= old(self).census());
                }
                Ok(card_drawn)
            },
            None => Err(String::from_str("There is no cards left in the close train card deck.")),
        }
    }

    fn peek_at_open_train_card(&self, card_index: usize) -> (r: Result<TrainColor, String>)
        ensures
            match r {
                Ok(c) => card_index < open_slots(self.open_train_card_deck).len()
                    && open_slots(self.open_train_card_deck)[card_index as int] == Some(c),
                Err(e) => self.open_draw_error(card_index as int, false) == Some(e@),
            },
    {
        if card_index >= self.open_train_card_deck.len() {
            let mut msg = String::from_str("Card looked up at index ");
            msg.append(usize_to_string(card_index).as_str());
            msg.append(" is out of bounds (size ");
            msg.append(usize_to_string(self.open_train_card_deck.len()).as_str());
            msg.append(").");
            return Err(msg);
        }
        match self.open_train_card_deck.get(card_index) {
            Some(card) => Ok(card),
            None => {
                let mut msg = String::from_str("No cards found at index ");
                msg.append(usize_to_string(card_index).as_str());
                msg.append(".");
                Err(msg)
            },
        }
    }

    /// Draws the train card at slot `card_index` of the open deck.
    ///
    /// Fails if the slot is out of bounds or empty, or if it holds a wild card and this is
    /// the second draw of the turn. Otherwise the slot is refilled from the close deck (or
    /// left empty if none is left), the wild-card cap is restored, and the card is returned
    /// together with whether the open deck had to be reshuffled.
    pub fn draw_from_open_train_card_deck(&mut self, card_index: usize, is_second_draw: bool) -> (r:
        Result<(TrainColor, bool), String>)
        requires
            old(self).wf(),
        ensures
            final(self).wf(),
            match r {
                Err(e) => {
                    &&& old(self).open_draw_error(card_index as int, is_second_draw) == Some(e@)
                    &&& final(self).same_as(old(self))
                },
                Ok((c, reshuffled)) => {
                    &&& old(self).open_draw_error(card_index as int, is_second_draw) is None
                    &&& open_slots(old(self).open_train_card_deck)[card_index as int] == Some(c)
                    &&& final(self).census().insert(c) == old(self).census()
                    &&& final(self).destination_card_deck@ == old(self).destination_card_deck@
                    &&& reshuffled == old(self).refill_needs_reshuffle(card_index as int, c)
                    &&& !reshuffled ==> open_slots(final(self).open_train_card_deck) == old(self).refilled_open(
                        card_index as int,
                    )
                    &&& old(self).stocked() ==> final(self).stocked()
                    &&& final(self).wild_cap_holds()
                },
            },
    {
        let card = match self.peek_at_open_train_card(card_index) {
            Ok(card) => card,
            Err(e) => return Err(e),
        };
        if is_second_draw && card.is_wild() {
            return Err(
                String::from_str(
                    "Cannot draw a wild card after having already drawn a train card this turn.",
                ),
            );
        }
        let ghost open = open_slots(self.open_train_card_deck);
        let ghost refilled = self.refilled_open(card_index as int);
        let drawn = self.draw_from_close_train_card_deck();
        let replacement = match drawn {
            Ok(c) => Some(c),
            Err(_) => None,
        };
        self.open_train_card_deck.set(card_index, replacement);
        proof {
            assert(open_slots(self.open_train_card_deck) == refilled);
            lemma_open_cards_update(open, card_index as int, replacement);
            assert(self.census() =~= old(self).census().remove(card));
        }
        let reshuffled = self.maybe_reshuffle_open_train_card_deck();
        Ok((card, reshuffled))
    }

    /// Draws up to three destination cards from the back of the destination deck, the last
    /// card first. Fails if the deck is empty.
    pub fn draw_from_destination_card_deck(&mut self) -> (r: Result<DestinationHand, String>)
        ensures
            final(self).open_train_card_deck == old(self).open_train_card_deck,
            final(self).close_train_card_deck == old(self).close_train_card_deck,
            final(self).discarded_train_card_deck == old(self).discarded_train_card_deck,
            r is Err <==> old(self).destination_card_deck@.len() == 0,
            match r {
                Ok(cards) => {
                    let old_deck = old(self).destination_card_deck@;
                    let n = if old_deck.len() < 3 {
                        old_deck.len() as int
                    } else {
                        3
                    };
                    &&& hand_cards(cards).len() == n
                    &&& forall|j: int|
                        0 <= j < n ==> #[trigger] hand_cards(cards)[j] == old_deck[old_deck.len() - 1 - j]
                    &&& final(self).destination_card_deck@ == old_deck.subrange(
                        0,
                        old_deck.len() - n,
                    )
                },
                Err(e) => {
                    &&& e@ == "Cannot draw from the destination card deck, as it is empty."@
                    &&& final(self).destination_card_deck@ == old(self).destination_card_deck@
                },
            },
    {
        if self.destination_card_deck.len() == 0 {
            return Err(
                String::from_str("Cannot draw from the destination card deck, as it is empty."),
            );
        }
        let ghost old_deck = self.destination_card_deck@;
        let mut drawn = DestinationHand::new();
        let mut k: usize = 0;
        while k < NUM_DRAWN_DESTINATION_CARDS && self.destination_card_deck.len() > 0
            invariant
                k <= NUM_DRAWN_DESTINATION_CARDS,
                hand_cards(drawn).len() == k,
                k <= old_deck.len(),
                self.destination_card_deck@ == old_deck.subrange(0, old_deck.len() - k),
                forall|j: int| 0 <= j < k ==> #[trigger] hand_cards(drawn)[j] == old_deck[old_deck.len() - 1 - j],
                self.open_train_card_deck == old(self).open_train_card_deck,
                self.close_train_card_deck == old(self).close_train_card_deck,
                self.discarded_train_card_deck == old(self).discarded_train_card_deck,
            decreases NUM_DRAWN_DESTINATION_CARDS - k,
        {
            match self.destination_card_deck.pop_back() {
                Some(card) => {
                    drawn.push(card);
                    k = k + 1;
                    proof {
                        assert(self.destination_card_deck@ =~= old_deck.subrange(
                            0,
                            old_deck.len() - k,
                        ));
                    }
                },
                None => {},
            }
        }
        Ok(drawn)
    }

    /// Adds the given train cards to the discarded deck; if the close deck is empty, the
    /// discarded deck is then shuffled and becomes the close deck.
    pub fn discard_train_cards(&mut self, train_cards: Vec<TrainColor>)
        requires
            old(self).wf(),
            old(self).census().len() + train_cards@.len() <= usize::MAX - 8,
        ensures
            final(self).wf(),
            final(self).destination_card_deck@ == old(self).destination_card_deck@,
            final(self).census() == old(self).census().add(train_cards@.to_multiset()),
            final(self).stocked(),
            final(self).wild_cap_holds(),
            !old(self).discard_needs_reshuffle(train_cards@) ==> {
                &&& open_slots(final(self).open_train_card_deck) == open_slots(
                    old(self).open_train_card_deck,
                )
                &&& old(self).close_train_card_deck@.len() > 0 ==> {
                    &&& final(self).close_train_card_deck@ == old(self).close_train_card_deck@
                    &&& final(self).discarded_train_card_deck@
                        == old(self).discarded_train_card_deck@ + train_cards@
                }
            },
    {
        let ghost disc = self.discarded_train_card_deck@;
        let mut i: usize = 0;
        while i < train_cards.len()
            invariant
                i <= train_cards@.len(),
                self.discarded_train_card_deck@ == disc + train_cards@.subrange(0, i as int),
                self.open_train_card_deck == old(self).open_train_card_deck,
                self.close_train_card_deck == old(self).close_train_card_deck,
                self.destination_card_deck == old(self).destination_card_deck,
            decreases train_cards@.len() - i,
        {
            self.discarded_train_card_deck.push(train_cards[i]);
            i = i + 1;
            proof {
                assert(self.discarded_train_card_deck@ =~= disc + train_cards@.subrange(0, i as int));
            }
        }
        proof {
            assert(train_cards@.subrange(0, i as int) =~= train_cards@);
            vstd::seq_lib::lemma_multiset_commutative(disc, train_cards@);
            assert(self.pool() =~= old(self).pool().add(train_cards@.to_multiset()));
        }
        self.maybe_reshuffle_and_swap_discarded_deck();
        proof {
            assert(self.census() =~= old(self).census().add(train_cards@.to_multiset()));
        }
        self.maybe_reshuffle_open_train_card_deck();
    }

    /// Adds the given destination cards to the front of the destination deck, one after the
    /// other, so that they are drawn again only after every other card.
    pub fn discard_destination_cards(&mut self, destination_cards: DestinationHand)
        ensures
            final(self).open_train_card_deck == old(self).open_train_card_deck,
            final(self).close_train_card_deck == old(self).close_train_card_deck,
            final(self).discarded_train_card_deck == old(self).discarded_train_card_deck,
            final(self).destination_card_deck@.len() == old(self).destination_card_deck@.len()
                + hand_cards(destination_cards).len(),
            forall|j: int|
                0 <= j < hand_cards(destination_cards).len() ==> #[trigger] final(self).destination_card_deck@[j]
                    == hand_cards(destination_cards)[hand_cards(destination_cards).len() - 1 - j],
            final(self).destination_card_deck@.subrange(
                hand_cards(destination_cards).len() as int,
                final(self).destination_card_deck@.len() as int,
            ) == old(self).destination_card_deck@,
    {
        let ghost deck = self.destination_card_deck@;
        let mut i: usize = 0;
        while i < destination_cards.len()
            invariant
                i <= hand_cards(destination_cards).len(),
                self.destination_card_deck@.len() == deck.len() + i,
                forall|j: int|
                    0 <= j < i ==> #[trigger] self.destination_card_deck@[j]
                        == hand_cards(destination_cards)[i - 1 - j],
                self.destination_card_deck@.subrange(
                    i as int,
                    self.destination_card_deck@.len() as int,
                ) == deck,
                self.open_train_card_deck == old(self).open_train_card_deck,
                self.close_train_card_deck == old(self).close_train_card_deck,
                self.discarded_train_card_deck == old(self).discarded_train_card_deck,
            decreases hand_cards(destination_cards).len() - i,
        {
            let ghost before = self.destination_card_deck@;
            self.destination_card_deck.push_front(destination_cards.get(i));
            i = i + 1;
            proof {
                assert(self.destination_card_deck@.subrange(
                    i as int,
                    self.destination_card_deck@.len() as int,
                ) =~= before.subrange(i - 1, before.len() as int));
            }
        }
    }

    /// Whether a player who drew one train card this turn may draw another: the close deck is
    /// not empty, or the open deck shows a real-colored card.
    pub fn can_player_draw_again_this_turn(&self) -> (r: bool)
        ensures
            r == self.can_draw_again(),
    {
        if self.close_train_card_deck.len() > 0 {
            return true;
        }
        let mut i: usize = 0;
        while i < self.open_train_card_deck.len()
            invariant
                i <= open_slots(self.open_train_card_deck).len(),
                forall|j: int|
                    0 <= j < i ==> !(#[trigger] open_slots(self.open_train_card_deck)[j] is Some
                        && open_slots(self.open_train_card_deck)[j] != Some(TrainColor::Wild)),
            decreases open_slots(self.open_train_card_deck).len() - i,
        {
            match self.open_train_card_deck.get(i) {
                Some(c) => {
                    if c.is_not_wild() {
                        return true;
                    }
                },
                None => {},
            }
            i = i + 1;
        }
        false
    }

    /// The first draw of a player when the game starts: four train cards from the close
    /// deck, and three destination cards.
    pub fn initial_draw(&mut self) -> (r: (Vec<TrainColor>, DestinationHand))
        requires
            old(self).wf(),
            old(self).stocked(),
            old(self).supply() >= NUM_DRAWN_INITIAL_TRAIN_CARDS,
            old(self).destination_card_deck@.len() >= NUM_DRAWN_DESTINATION_CARDS,
        ensures
            final(self).wf(),
            final(self).stocked(),
            final(self).open_train_card_deck == old(self).open_train_card_deck,
            r.0@.len() == NUM_DRAWN_INITIAL_TRAIN_CARDS,
            old(self).wild_cap_holds() ==> final(self).wild_cap_holds(),
            final(self).census().add(r.0@.to_multiset()) == old(self).census(),
            final(self).supply() + NUM_DRAWN_INITIAL_TRAIN_CARDS == old(self).supply(),
            old(self).close_train_card_deck@.len() > NUM_DRAWN_INITIAL_TRAIN_CARDS ==> forall|j: int|
                0 <= j < NUM_DRAWN_INITIAL_TRAIN_CARDS ==> #[trigger] r.0@[j]
                    == old(self).close_train_card_deck@[old(self).close_train_card_deck@.len() - 1
                    - j],
            hand_cards(r.1).len() == NUM_DRAWN_DESTINATION_CARDS,
            forall|j: int|
                0 <= j < NUM_DRAWN_DESTINATION_CARDS ==> #[trigger] hand_cards(r.1)[j]
                    == old(self).destination_card_deck@[old(self).destination_card_deck@.len() - 1
                    - j],
            final(self).destination_card_deck@ == old(self).destination_card_deck@.subrange(
                0,
                old(self).destination_card_deck@.len() - NUM_DRAWN_DESTINATION_CARDS,
            ),
    {
        let ghost closed = self.close_train_card_deck@;
        let mut train_cards: Vec<TrainColor> = Vec::new();
        let mut k: usize = 0;
        while k < NUM_DRAWN_INITIAL_TRAIN_CARDS
            invariant
                k <= NUM_DRAWN_INITIAL_TRAIN_CARDS,
                train_cards@.len() == k,
                self.wf(),
                self.stocked(),
                self.supply() + k == old(self).supply(),
                self.census().add(train_cards@.to_multiset()) == old(self).census(),
                self.open_train_card_deck == old(self).open_train_card_deck,
                self.destination_card_deck@ == old(self).destination_card_deck@,
                closed.len() > NUM_DRAWN_INITIAL_TRAIN_CARDS ==> {
                    &&& self.close_train_card_deck@ == closed.subrange(0, closed.len() - k)
                    &&& forall|j: int|
                        0 <= j < k ==> #[trigger] train_cards@[j] == closed[closed.len() - 1 - j]
                },
                closed == old(self).close_train_card_deck@,
                old(self).supply() >= NUM_DRAWN_INITIAL_TRAIN_CARDS,
                old(self).destination_card_deck@.len() >= NUM_DRAWN_DESTINATION_CARDS,
                old(self).wild_cap_holds() ==> self.wild_cap_holds(),
            decreases NUM_DRAWN_INITIAL_TRAIN_CARDS - k,
        {
            let ghost before = train_cards@;
            let ghost census_before = self.census();
            let ghost closed_before = self.close_train_card_deck@;
            match self.draw_from_close_train_card_deck() {
                Ok(c) => {
                    train_cards.push(c);
                    proof {
                        assert(self.census().add(train_cards@.to_multiset()) =~= census_before.add(
                            before.to_multiset(),
                        ));
                        if closed.len() > NUM_DRAWN_INITIAL_TRAIN_CARDS {
                            assert(closed_before.drop_last() =~= closed.subrange(
                                0,
                                closed.len() - k - 1,
                            ));
                        }
                    }
                },
                Err(_) => {
                    proof {
                        assert(false);
                    }
                },
            }
            k = k + 1;
        }
        let destination_cards = match self.draw_from_destination_card_deck() {
            Ok(cards) => cards,
            Err(_) => {
                proof {
                    assert(false);
                }
                DestinationHand::new()
            },
        };
        (train_cards, destination_cards)
    }

    /// The public digest of the decks: the open deck, and the sizes of the other decks.
    pub fn get_state(&self) -> (r: CardDealerState)
        ensures
            r.open_train_card_deck@ == open_slots(self.open_train_card_deck),
            r.close_train_card_deck_size == self.close_train_card_deck@.len(),
            r.discarded_train_card_deck_size == self.discarded_train_card_deck@.len(),
            r.destination_card_deck_size == self.destination_card_deck@.len(),
    {
        let open = self.open_train_card_deck.to_vec();
        CardDealerState {
            open_train_card_deck: open,
            close_train_card_deck_size: self.close_train_card_deck.len(),
            discarded_train_card_deck_size: self.discarded_train_card_deck.len(),
            destination_card_deck_size: self.destination_card_deck.len(),
        }
    }

    fn generate_destination_cards() -> (r: VecDeque<DestinationCard>)
        ensures
            r@.len() == destination_catalog().len(),
            r@.to_multiset() == destination_catalog().to_multiset(),
    {
        let mut cards: Vec<DestinationCard> = Vec::new();
        cards.push(DestinationCard { destination: (City::Boston, City::Miami), points: 12 });
        cards.push(DestinationCard { destination: (City::Calgary, City::Phoenix), points: 13 });
        cards.push(DestinationCard { destination: (City::Calgary, City::SaltLakeCity), points: 7 });
        cards.push(DestinationCard { destination: (City::Chicago, City::NewOrleans), points: 7 });
        cards.push(DestinationCard { destination: (City::Chicago, City::SantaFe), points: 9 });
        cards.push(DestinationCard { destination: (City::Dallas, City::NewYork), points: 11 });
        cards.push(DestinationCard { destination: (City::Denver, City::ElPaso), points: 4 });
        cards.push(DestinationCard { destination: (City::Denver, City::Pittsburgh), points: 11 });
        cards.push(DestinationCard { destination: (City::Duluth, City::ElPaso), points: 10 });
        cards.push(DestinationCard { destination: (City::Duluth, City::Houston), points: 8 });
        cards.push(DestinationCard { destination: (City::Helena, City::LosAngeles), points: 8 });
        cards.push(DestinationCard { destination: (City::KansasCity, City::Houston), points: 5 });
        cards.push(DestinationCard { destination: (City::LosAngeles, City::Chicago), points: 16 });
        cards.push(DestinationCard { destination: (City::LosAngeles, City::Miami), points: 20 });
        cards.push(DestinationCard { destination: (City::LosAngeles, City::NewYork), points: 21 });
        cards.push(DestinationCard { destination: (City::Montreal, City::Atlanta), points: 9 });
        cards.push(DestinationCard { destination: (City::Montreal, City::NewOrleans), points: 13 });
        cards.push(DestinationCard { destination: (City::NewYork, City::Atlanta), points: 6 });
        cards.push(DestinationCard { destination: (City::Portland, City::Nashville), points: 17 });
        cards.push(DestinationCard { destination: (City::Portland, City::Phoenix), points: 11 });
        cards.push(DestinationCard { destination: (City::SanFrancisco, City::Atlanta), points: 17 });
        cards.push(DestinationCard { destination: (City::SaultStMarie, City::Nashville), points: 8 });
        cards.push(DestinationCard { destination: (City::SaultStMarie, City::OklahomaCity), points: 9 });
        cards.push(DestinationCard { destination: (City::Seattle, City::LosAngeles), points: 9 });
        cards.push(DestinationCard { destination: (City::Seattle, City::NewYork), points: 22 });
        cards.push(DestinationCard { destination: (City::Toronto, City::Miami), points: 10 });
        cards.push(DestinationCard { destination: (City::Vancouver, City::Montreal), points: 20 });
        cards.push(DestinationCard { destination: (City::Vancouver, City::SantaFe), points: 13 });
        cards.push(DestinationCard { destination: (City::Winnipeg, City::Houston), points: 12 });
        cards.push(DestinationCard { destination: (City::Winnipeg, City::LittleRock), points: 11 });
        proof {
            assert(cards@ =~= destination_catalog());
        }
        shuffle(&mut cards);
        let mut deck: VecDeque<DestinationCard> = VecDeque::new();
        let mut i: usize = 0;
        while i < cards.len()
            invariant
                i <= cards@.len(),
                deck@ == cards@.subrange(0, i as int),
            decreases cards@.len() - i,
        {
            deck.push_back(cards[i]);
            i = i + 1;
            proof {
                assert(deck@ =~= cards@.subrange(0, i as int));
            }
        }
        proof {
            assert(cards@.subrange(0, i as int) =~= cards@);
        }
        deck
    }

    /// Creates a card dealer with every deck shuffled: five open cards, the other train
    /// cards in the close deck, the thirty destination cards, and the wild-card cap restored.
    pub fn new() -> (r: CardDealer)
        ensures
            r.wf(),
            r.stocked(),
            is_full_census(r.census()),
            r.census().len() == 110,
            open_cards(open_slots(r.open_train_card_deck)).len() == NUM_OPEN_TRAIN_CARDS,
            r.supply() == 105,
            r.destination_card_deck@.len() == 30,
            r.destination_card_deck@.to_multiset() == destination_catalog().to_multiset(),
            r.wild_cap_holds(),
    {
        let mut all: Vec<TrainColor> = Vec::new();
        push_copies(&mut all, TrainColor::Black, NUM_NON_WILD_CARDS);
        push_copies(&mut all, TrainColor::Blue, NUM_NON_WILD_CARDS);
        push_copies(&mut all, TrainColor::Green, NUM_NON_WILD_CARDS);
        push_copies(&mut all, TrainColor::Orange, NUM_NON_WILD_CARDS);
        push_copies(&mut all, TrainColor::Pink, NUM_NON_WILD_CARDS);
        push_copies(&mut all, TrainColor::Red, NUM_NON_WILD_CARDS);
        push_copies(&mut all, TrainColor::White, NUM_NON_WILD_CARDS);
        push_copies(&mut all, TrainColor::Wild, NUM_WILD_CARDS);
        push_copies(&mut all, TrainColor::Yellow, NUM_NON_WILD_CARDS);
        assert(is_full_census(all@.to_multiset()));
        shuffle(&mut all);
        let mut open = OpenDeck::new();
        let mut i: usize = 0;
        proof {
            assert(open_cards(open_slots(open)) =~= all@.subrange(0, 0));
        }
        while i < NUM_OPEN_TRAIN_CARDS
            invariant
                i <= NUM_OPEN_TRAIN_CARDS,
                all@.len() == 110,
                open_slots(open).len() == i,
                open_cards(open_slots(open)) == all@.subrange(0, i as int),
            decreases NUM_OPEN_TRAIN_CARDS - i,
        {
            proof {
                lemma_open_cards_push(open_slots(open), Some(all@[i as int]));
                assert(all@.subrange(0, i + 1) =~= all@.subrange(0, i as int).push(all@[i as int]));
            }
            open.push(Some(all[i]));
            i = i + 1;
        }
        let mut closed: Vec<TrainColor> = Vec::new();
        while i < all.len()
            invariant
                NUM_OPEN_TRAIN_CARDS <= i <= all@.len(),
                all@.len() == 110,
                closed@ == all@.subrange(NUM_OPEN_TRAIN_CARDS as int, i as int),
            decreases all@.len() - i,
        {
            closed.push(all[i]);
            i = i + 1;
            proof {
                assert(closed@ =~= all@.subrange(NUM_OPEN_TRAIN_CARDS as int, i as int));
            }
        }
        let mut dealer = CardDealer {
            open_train_card_deck: open,
            close_train_card_deck: closed,
            discarded_train_card_deck: Vec::new(),
            destination_card_deck: Self::generate_destination_cards(),
        };
        proof {
            let head = all@.subrange(0, NUM_OPEN_TRAIN_CARDS as int);
            let tail = all@.subrange(NUM_OPEN_TRAIN_CARDS as int, 110);
            assert(all@ =~= head + tail);
            vstd::seq_lib::lemma_multiset_commutative(head, tail);
            assert(dealer.discarded_train_card_deck@ =~= Seq::<TrainColor>::empty());
            assert(dealer.census() =~= all@.to_multiset());
        }
        dealer.maybe_reshuffle_open_train_card_deck();
        dealer.maybe_reshuffle_and_swap_discarded_deck();
        dealer
    }

    /// Mutable access to the open train card deck.
    pub fn get_mut_open_train_card_deck(&mut self) -> (r: &mut OpenDeck)
        ensures
            *r == old(self).open_train_card_deck,
            final(self).open_train_card_deck == *final(r),
            final(self).close_train_card_deck == old(self).close_train_card_deck,
            final(self).discarded_train_card_deck == old(self).discarded_train_card_deck,
            final(self).destination_card_deck == old(self).destination_card_deck,
    {
        &mut self.open_train_card_deck
    }

    /// Access to the close train card deck.
    pub fn get_close_train_card_deck(&self) -> (r: &Vec<TrainColor>)
        ensures
            *r == self.close_train_card_deck,
    {
        &self.close_train_card_deck
    }

    /// Mutable access to the close train card deck.
    pub fn get_mut_close_train_card_deck(&mut self) -> (r: &mut Vec<TrainColor>)
        ensures
            *r == old(self).close_train_card_deck,
            final(self).close_train_card_deck == *final(r),
            final(self).open_train_card_deck == old(self).open_train_card_deck,
            final(self).discarded_train_card_deck == old(self).discarded_train_card_deck,
            final(self).destination_card_deck == old(self).destination_card_deck,
    {
        &mut self.close_train_card_deck
    }

    /// Access to the discarded train card deck.
    pub fn get_discarded_train_card_deck(&self) -> (r: &Vec<TrainColor>)
        ensures
            *r == self.discarded_train_card_deck,
    {
        &self.discarded_train_card_deck
    }

    /// Access to the destination card deck.
    pub fn get_destination_card_deck(&self) -> (r: &VecDeque<DestinationCard>)
        ensures
            *r == self.destination_card_deck,
    {
        &self.destination_card_deck
    }

    /// Mutable access to the destination card deck.
    pub fn get_mut_destination_card_deck(&mut self) -> (r: &mut VecDeque<DestinationCard>)
        ensures
            *r == old(self).destination_card_deck,
            final(self).destination_card_deck == *final(r),
            final(self).open_train_card_deck == old(self).open_train_card_deck,
            final(self).close_train_card_deck == old(self).close_train_card_deck,
            final(self).discarded_train_card_deck == old(self).discarded_train_card_deck,
    {
        &mut self.destination_card_deck
    }
}

} // verus!
