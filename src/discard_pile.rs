use vstd::prelude::*;
use crate::abs_diff_eq::{abs_diff, AbsDiffEq};
use crate::card::{Card, HIGHEST_RANK, LOWEST_RANK};
use crate::error::GameError;

verus! {

/// The order in which a discard pile accepts cards.
#[derive(Debug, PartialEq, Eq, Structural, Clone, Copy)]
pub enum Direction {
    Up,
    Down,
}

/// The direction in which `card` moves away from `top`: up when it is
/// higher, down otherwise.
pub open spec fn natural_direction(card: u8, top: u8) -> Direction {
    if card > top {
        Direction::Up
    } else {
        Direction::Down
    }
}

/// Whether `card` moves strictly in `direction` relative to `top`.
pub open spec fn follows_direction(direction: Direction, card: u8, top: u8) -> bool {
    match direction {
        Direction::Up => card > top,
        Direction::Down => card < top,
    }
}

/// Whether `card` is a jump of exactly ten against `direction`.
pub open spec fn jumps_back_ten(direction: Direction, card: u8, top: u8) -> bool {
    abs_diff(card as int, top as int) == 10 && natural_direction(card, top) != direction
}

/// Whether `card` may be placed on a pile with the given direction and top card.
pub open spec fn is_legal_play(direction: Direction, card: u8, top: u8) -> bool {
    follows_direction(direction, card, top) || jumps_back_ten(direction, card, top)
}

/// The jump of ten is measured the same way whichever rank is larger: on an
/// ascending pile it accepts exactly the card ten below the top, on a
/// descending pile exactly the card ten above it, and the distance test
/// gives the same answer with its arguments swapped.
pub proof fn lemma_rule_of_ten_symmetric(card: u8, top: u8)
    ensures
        card.abs_diff_eq_spec(&top, 10) == top.abs_diff_eq_spec(&card, 10),
        card.abs_diff_eq_spec(&top, 10) <==> (card as int + 10 == top as int || top as int + 10
            == card as int),
        jumps_back_ten(Direction::Up, card, top) <==> card as int + 10 == top as int,
        jumps_back_ten(Direction::Down, card, top) <==> card as int == top as int + 10,
{
}

/// A discard pile: a stack of cards, the top being the last one accepted,
/// and a fixed direction.
#[derive(Debug, Clone)]
pub struct DiscardPile {
    pub cards: Vec<Card>,
    pub direction: Direction,
}

impl View for DiscardPile {
    type V = Seq<Card>;

    open spec fn view(&self) -> Seq<Card> {
        self.cards@
    }
}

impl DiscardPile {
    /// A pile always holds at least the card it was seeded with.
    pub open spec fn wf(&self) -> bool {
        self@.len() > 0
    }

    /// The card on top of the pile.
    pub open spec fn top(&self) -> Card {
        self@.last()
    }

    /// Whether `card` may be placed on this pile.
    pub open spec fn accepts(&self, card: Card) -> bool {
        is_legal_play(self.direction, card.0, self.top().0)
    }

    /// Creates a `DiscardPile`, setting the top card to `start_with`.
    pub fn new(start_with: Card, direction: Direction) -> (r: Self)
        ensures
            r@ == seq![start_with],
            r.direction == direction,
            r.wf(),
    {
        Self { cards: vec![start_with], direction }
    }

    /// Creates an ascending pile seeded with the lowest rank.
    pub fn new_up() -> (r: Self)
        ensures
            r@ == seq![Card(LOWEST_RANK)],
            r.direction == Direction::Up,
            r.wf(),
    {
        Self::new(Card(LOWEST_RANK), Direction::Up)
    }

    /// Creates a descending pile seeded with the highest rank.
    pub fn new_down() -> (r: Self)
        ensures
            r@ == seq![Card(HIGHEST_RANK)],
            r.direction == Direction::Down,
            r.wf(),
    {
        Self::new(Card(HIGHEST_RANK), Direction::Down)
    }

    /// Attempts to place the given card on the pile. An illegal play leaves
    /// the pile as it was.
    pub fn discard_card(&mut self, card: &Card) -> (r: Result<(), GameError>)
        requires
            old(self).wf(),
        ensures
            final(self).wf(),
            final(self).direction == old(self).direction,
            r is Ok <==> old(self).accepts(*card),
            r is Ok ==> final(self)@ == old(self)@.push(*card),
            r is Err ==> r == Err::<(), GameError>(GameError::IllegalPlay) && *final(self) == *old(self),
    {
        if !self.can_play_card(card) {
            return Err(GameError::IllegalPlay);
        }
        self.cards.push(*card);
        Ok(())
    }

    /// Returns `true` if the given card can be played.
    pub fn can_play_card(&self, card: &Card) -> (r: bool)
        requires
            self.wf(),
        ensures
            r == self.accepts(*card),
    {
        self.is_card_corresponds_direction(card) || self.is_card_corresponds_rule10(card)
    }

    /// Peeks at the card on top of the pile, leaving it in place.
    pub fn peek_top_card(&self) -> (r: &Card)
        requires
            self.wf(),
        ensures
            *r == self.top(),
    {
        self.cards.last().unwrap()
    }

    /// Returns the number of cards in this discard pile.
    pub fn len(&self) -> (r: usize)
        ensures
            r == self@.len(),
    {
        self.cards.len()
    }

    /// Returns `Direction::Up` if the given card is ranked higher than
    /// the top card, `Direction::Down` otherwise.
    pub fn determine_card_direction(&self, card: &Card) -> (r: Direction)
        requires
            self.wf(),
        ensures
            r == natural_direction(card.0, self.top().0),
    {
        if card.0 > self.peek_top_card().0 {
            Direction::Up
        } else {
            Direction::Down
        }
    }

    /// Returns `true` if the given card moves strictly in the pile's direction.
    pub fn is_card_corresponds_direction(&self, card: &Card) -> (r: bool)
        requires
            self.wf(),
        ensures
            r == follows_direction(self.direction, card.0, self.top().0),
    {
        self.direction == self.determine_card_direction(card) && card.0 != self.peek_top_card().0
    }

    /// Returns `true` if the given card differs by ten from the top card and
    /// moves against the pile's direction.
    pub fn is_card_corresponds_rule10(&self, card: &Card) -> (r: bool)
        requires
            self.wf(),
        ensures
            r == jumps_back_ten(self.direction, card.0, self.top().0),
    {
        card.0.abs_diff_eq(&self.peek_top_card().0, 10) && self.determine_card_direction(card)
            != self.direction
    }
}

} // verus!
