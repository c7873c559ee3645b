use vstd::prelude::*;
use crate::card::Card;

verus! {

/// The cards a player is holding, in the order they were received.
#[derive(Debug, Clone)]
pub struct Hand {
    pub cards: Vec<Card>,
}

impl View for Hand {
    type V = Seq<Card>;

    open spec fn view(&self) -> Seq<Card> {
        self.cards@
    }
}

impl Hand {
    /// Creates an empty hand.
    pub fn new() -> (r: Self)
        ensures
            r@ == Seq::<Card>::empty(),
    {
        Self::default()
    }

    /// Adds one card at the end of the hand.
    pub fn push_card(&mut self, card: Card)
        ensures
            final(self)@ == old(self)@.push(card),
    {
        self.cards.push(card);
    }

    /// Returns the number of cards.
    pub fn len(&self) -> (r: usize)
        ensures
            r == self@.len(),
    {
        self.cards.len()
    }

    /// Returns `true` if the hand is empty.
    pub fn is_empty(&self) -> (r: bool)
        ensures
            r == (self@.len() == 0),
    {
        self.cards.len() == 0
    }

    /// Returns the index of the first occurrence of `card` in the hand.
    pub fn position(&self, card: &Card) -> (r: Option<usize>)
        ensures
            r is None <==> !self@.contains(*card),
            r matches Some(i) ==> i < self@.len() && self@[i as int] == *card && forall|m: int|
                0 <= m < i ==> self@[m] != *card,
    {
        let mut i: usize = 0;
        while i < self.cards.len()
            invariant
                i <= self@.len(),
                forall|m: int| 0 <= m < i ==> self@[m] != *card,
            decreases self@.len() - i,
        {
            if self.cards[i] == *card {
                return Some(i);
            }
            i = i + 1;
        }
        None
    }

    /// Plays the card at `card_idx`: removes it from the hand, shifting the
    /// later cards down, and returns it.
    pub fn play(&mut self, card_idx: usize) -> (r: Card)
        requires
            card_idx < old(self)@.len(),
        ensures
            r == old(self)@[card_idx as int],
            final(self)@ == old(self)@.remove(card_idx as int),
    {
        self.cards.remove(card_idx)
    }
}

impl Default for Hand {
    fn default() -> (r: Self)
        ensures
            r@ == Seq::<Card>::empty(),
    {
        Self { cards: Vec::with_capacity(8) }
    }
}

} // verus!
