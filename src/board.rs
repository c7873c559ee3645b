use vstd::prelude::*;
use crate::card::Card;
use crate::deck::Deck;
use crate::discard_pile::{Direction, DiscardPile};
use crate::error::GameError;

verus! {

/// The deck and the four discard piles.
#[derive(Debug, Clone)]
pub struct Board {
    /// The draw pile.
    pub deck: Deck,
    /// Two ascending piles followed by two descending ones.
    pub discard_piles: [DiscardPile; 4],
}

impl Board {
    /// Every pile holds a card, and the directions are up, up, down, down.
    pub open spec fn wf(&self) -> bool {
        &&& forall|i: int| 0 <= i < 4 ==> (#[trigger] self.discard_piles[i]).wf()
        &&& self.discard_piles[0].direction == Direction::Up
        &&& self.discard_piles[1].direction == Direction::Up
        &&& self.discard_piles[2].direction == Direction::Down
        &&& self.discard_piles[3].direction == Direction::Down
    }

    /// Whether `card` fits at least one pile.
    pub open spec fn accepts(&self, card: Card) -> bool {
        exists|i: int| 0 <= i < 4 && (#[trigger] self.discard_piles[i]).accepts(card)
    }

    /// Returns a board with a freshly shuffled deck and four seeded piles.
    pub fn new() -> (r: Board)
        ensures
            r.wf(),
            r.deck@.to_multiset() == Deck::full().to_multiset(),
            r.discard_piles[0]@ == seq![Card(1)],
            r.discard_piles[1]@ == seq![Card(1)],
            r.discard_piles[2]@ == seq![Card(100)],
            r.discard_piles[3]@ == seq![Card(100)],
    {
        Self::with_deck(Deck::new_shuffled())
    }

    /// Returns a board with the given deck and four seeded piles.
    pub fn with_deck(deck: Deck) -> (r: Board)
        ensures
            r.wf(),
            r.deck == deck,
            r.discard_piles[0]@ == seq![Card(1)],
            r.discard_piles[1]@ == seq![Card(1)],
            r.discard_piles[2]@ == seq![Card(100)],
            r.discard_piles[3]@ == seq![Card(100)],
    {
        let discard_piles: [DiscardPile; 4] = [
            DiscardPile::new_up(),
            DiscardPile::new_up(),
            DiscardPile::new_down(),
            DiscardPile::new_down(),
        ];
        Self { deck, discard_piles }
    }

    /// Returns true if the given card fits at least one pile.
    pub fn can_play_card(&self, card: &Card) -> (r: bool)
        requires
            self.wf(),
        ensures
            r == self.accepts(*card),
    {
        let mut i: usize = 0;
        while i < 4
            invariant
                self.wf(),
                i <= 4,
                forall|j: int| 0 <= j < i ==> !(#[trigger] self.discard_piles[j]).accepts(*card),
            decreases 4 - i,
        {
            if self.discard_piles[i].can_play_card(card) {
                return true;
            }
            i = i + 1;
        }
        false
    }

    /// Adds a card to the discard pile at `index`.
    pub fn discard_card(&mut self, index: usize, card: &Card) -> (r: Result<(), GameError>)
        requires
            old(self).wf(),
            index < 4,
        ensures
            final(self).wf(),
            final(self).deck == old(self).deck,
            r is Ok <==> old(self).discard_piles[index as int].accepts(*card),
            r is Ok ==> forall|j: int|
                0 <= j < 4 && j != index ==> #[trigger] final(self).discard_piles[j]
                    == old(self).discard_piles[j],
            r is Ok ==> final(self).discard_piles[index as int]@ == old(
                self,
            ).discard_piles[index as int]@.push(*card),
            r is Err ==> r == Err::<(), GameError>(GameError::IllegalPlay)
                && final(self).discard_piles@ == old(self).discard_piles@,
    {
        let ghost before = self.discard_piles@;
        let r = self.discard_piles[index].discard_card(card);
        proof {
            if r is Err {
                assert(self.discard_piles@ =~= before);
            }
        }
        r
    }
}

} // verus!
