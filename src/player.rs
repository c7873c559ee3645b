use vstd::prelude::*;
use vstd::multiset::Multiset;
use crate::board::Board;
use crate::card::Card;
use crate::hand::Hand;

verus! {

/// All cards held in the hands of `players`.
pub open spec fn hands_cards(players: Seq<Player>) -> Multiset<Card>
    decreases players.len(),
{
    if players.len() == 0 {
        Multiset::empty()
    } else {
        hands_cards(players.drop_last()).add(players.last().hand@.to_multiset())
    }
}

/// Replacing one player changes the cards in hand by the two hands' difference.
pub proof fn lemma_hands_cards_update(players: Seq<Player>, i: int, p: Player)
    requires
        0 <= i < players.len(),
    ensures
        hands_cards(players.update(i, p)).add(players[i].hand@.to_multiset()) == hands_cards(
            players,
        ).add(p.hand@.to_multiset()),
    decreases players.len(),
{
    broadcast use vstd::multiset::group_multiset_axioms;

    let q = players.update(i, p);
    let rest = hands_cards(players.drop_last());
    assert(hands_cards(players) == rest.add(players.last().hand@.to_multiset()));
    assert(hands_cards(q) == hands_cards(q.drop_last()).add(q.last().hand@.to_multiset()));
    if i == players.len() - 1 {
        assert(q.drop_last() =~= players.drop_last());
        assert(q.last() == p);
        assert(hands_cards(q).add(players[i].hand@.to_multiset()) =~= hands_cards(players).add(
            p.hand@.to_multiset(),
        ));
    } else {
        lemma_hands_cards_update(players.drop_last(), i, p);
        assert(q.drop_last() =~= players.drop_last().update(i, p));
        assert(q.last() == players.last());
        assert(players.drop_last()[i] == players[i]);
        let lhs = hands_cards(q).add(players[i].hand@.to_multiset());
        let rhs = hands_cards(players).add(p.hand@.to_multiset());
        assert forall|v: Card| #[trigger] lhs.count(v) == rhs.count(v) by {
            assert(hands_cards(q.drop_last()).add(players[i].hand@.to_multiset()).count(v)
                == rest.add(p.hand@.to_multiset()).count(v));
        }
        assert(lhs =~= rhs);
    }
}

/// A player throughout the game.
#[derive(Debug, Clone)]
pub struct Player {
    pub hand: Hand,
}

impl Player {
    /// Creates a player with an empty hand.
    pub fn new() -> (r: Player)
        ensures
            r.hand@ == Seq::<Card>::empty(),
    {
        Self { hand: Hand::new() }
    }

    /// Whether some card of this player's hand fits some pile of `board`.
    pub open spec fn has_move(&self, board: &Board) -> bool {
        exists|i: int| 0 <= i < self.hand@.len() && board.accepts(#[trigger] self.hand@[i])
    }

    /// Returns true if any of this player's cards can be played on the board.
    pub fn can_play_a_card(&self, board: &Board) -> (r: bool)
        requires
            board.wf(),
        ensures
            r == self.has_move(board),
    {
        let mut i: usize = 0;
        while i < self.hand.cards.len()
            invariant
                board.wf(),
                i <= self.hand@.len(),
                forall|j: int| 0 <= j < i ==> !board.accepts(#[trigger] self.hand@[j]),
            decreases self.hand@.len() - i,
        {
            if board.can_play_card(&self.hand.cards[i]) {
                return true;
            }
            i = i + 1;
        }
        false
    }

    /// Gets the hand of this player, suitable for examination.
    pub fn hand(&self) -> (r: &[Card])
        ensures
            r@ == self.hand@,
    {
        self.hand.cards.as_slice()
    }
}

} // verus!
