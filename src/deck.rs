use vstd::prelude::*;
use rand::seq::SliceRandom;
use crate::card::Card;
use crate::error::GameError;
use crate::player::{hands_cards, lemma_hands_cards_update, Player};

verus! {

/// The number of cards in a full deck: every rank from 2 to 99.
pub const DECK_SIZE: usize = 98;

/// Relies on rand's `SliceRandom::shuffle` with the thread-local generator:
/// it only swaps elements, so the result is a permutation of the input.
#[verifier::external_body]
fn shuffle_cards(cards: &mut Vec<Card>)
    ensures
        final(cards)@.to_multiset() == old(cards)@.to_multiset(),
{
    let mut rng = rand::thread_rng();
    cards.shuffle(&mut rng);
}

/// The cards dealt when `k` cards are drawn one by one from the top (the end)
/// of `cards`.
pub open spec fn drawn(cards: Seq<Card>, k: int) -> Seq<Card> {
    Seq::new(k as nat, |i: int| cards[cards.len() - 1 - i])
}

/// Whether `c` is a rank that is dealt: 2 to 99.
pub open spec fn is_playable(c: Card) -> bool {
    2 <= c.0 <= 99
}

/// Whether `cards` holds every playable rank exactly once, in any order.
pub open spec fn is_full_deck(cards: Seq<Card>) -> bool {
    cards.to_multiset() == Deck::full().to_multiset()
}

/// A full deck is one without repeated cards that holds exactly the playable ranks.
proof fn lemma_full_deck_iff(cards: Seq<Card>)
    ensures
        is_full_deck(cards) <==> (cards.no_duplicates() && forall|c: Card|
            cards.contains(c) <==> is_playable(c)),
{
    broadcast use vstd::multiset::group_multiset_axioms;
    broadcast use vstd::seq_lib::group_to_multiset_ensures;

    let full = Deck::full();
    assert(full.no_duplicates());
    assert forall|c: Card| full.contains(c) <==> is_playable(c) by {
        if is_playable(c) {
            assert(full[c.0 - 2] == c);
        }
    }
    full.lemma_multiset_has_no_duplicates();
    if is_full_deck(cards) {
        assert forall|x: Card| cards.to_multiset().contains(x) implies cards.to_multiset().count(x)
            == 1 by {
            assert(full.to_multiset().count(x) == cards.to_multiset().count(x));
        }
        cards.lemma_multiset_has_no_duplicates_conv();
        assert forall|c: Card| cards.contains(c) <==> is_playable(c) by {
            assert(full.to_multiset().count(c) == cards.to_multiset().count(c));
        }
    }
    if cards.no_duplicates() && forall|c: Card| cards.contains(c) <==> is_playable(c) {
        cards.lemma_multiset_has_no_duplicates();
        assert forall|c: Card| cards.to_multiset().count(c) == full.to_multiset().count(c) by {
            if is_playable(c) {
                assert(cards.contains(c));
                assert(full.contains(c));
            }
        }
        assert(cards.to_multiset() =~= full.to_multiset());
    }
}

/// A deck of zero or more cards; the top is the last card.
#[derive(Debug, Clone)]
pub struct Deck {
    pub cards: Vec<Card>,
}

impl View for Deck {
    type V = Seq<Card>;

    open spec fn view(&self) -> Seq<Card> {
        self.cards@
    }
}

impl Deck {
    /// The unshuffled deck: the playable ranks 2 to 99 in ascending order.
    pub open spec fn full() -> Seq<Card> {
        Seq::new(DECK_SIZE as nat, |i: int| Card((i + 2) as u8))
    }

    /// Returns the unshuffled deck.
    pub fn new() -> (r: Self)
        ensures
            r@ == Self::full(),
    {
        Self::default()
    }

    /// Returns a deck of all playable ranks in random order.
    pub fn new_shuffled() -> (r: Self)
        ensures
            r@.to_multiset() == Self::full().to_multiset(),
    {
        let mut deck = Self::new();
        deck.shuffle();
        deck
    }

    /// Builds a deck whose cards come in the given order, the last one on top.
    /// Returns `None` unless the cards are every playable rank exactly once.
    pub fn from_cards(cards: Vec<Card>) -> (r: Option<Deck>)
        ensures
            r is Some <==> is_full_deck(cards@),
            r matches Some(d) ==> d@ == cards@,
    {
        let mut seen: Vec<bool> = Vec::new();
        let mut k: usize = 0;
        while k < 101
            invariant
                k <= 101,
                seen@.len() == k,
                forall|r: int| 0 <= r < k ==> !seen@[r],
            decreases 101 - k,
        {
            seen.push(false);
            k = k + 1;
        }
        let mut i: usize = 0;
        while i < cards.len()
            invariant
                i <= cards@.len(),
                seen@.len() == 101,
                forall|j: int| 0 <= j < i ==> is_playable(#[trigger] cards@[j]),
                forall|j1: int, j2: int|
                    0 <= j1 < j2 < i ==> #[trigger] cards@[j1] != #[trigger] cards@[j2],
                forall|r: int|
                    0 <= r < 101 ==> (seen@[r] <==> exists|j: int|
                        0 <= j < i && (#[trigger] cards@[j]).0 == r),
            decreases cards@.len() - i,
        {
            let c = cards[i];
            if c.0 < 2 || c.0 > 99 {
                proof {
                    lemma_full_deck_iff(cards@);
                    assert(cards@.contains(c));
                    assert(!is_playable(c));
                    assert(!is_full_deck(cards@));
                }
                return None;
            }
            if seen[c.0 as usize] {
                proof {
                    let j = choose|j: int| 0 <= j < i && (#[trigger] cards@[j]).0 == c.0;
                    assert(cards@[j] == cards@[i as int]);
                    lemma_full_deck_iff(cards@);
                }
                return None;
            }
            seen.set(c.0 as usize, true);
            proof {
                assert forall|r: int|
                    0 <= r < 101 implies (seen@[r] <==> exists|j: int|
                        0 <= j < i + 1 && (#[trigger] cards@[j]).0 == r) by {
                    if r == c.0 {
                        assert(cards@[i as int].0 == r);
                    }
                }
            }
            i = i + 1;
        }
        let mut v: usize = 2;
        while v < 100
            invariant
                2 <= v <= 100,
                seen@.len() == 101,
                forall|r: int| 2 <= r < v ==> seen@[r],
                forall|j: int| 0 <= j < cards@.len() ==> is_playable(#[trigger] cards@[j]),
                forall|j1: int, j2: int|
                    0 <= j1 < j2 < cards@.len() ==> #[trigger] cards@[j1] != #[trigger] cards@[j2],
                forall|r: int|
                    0 <= r < 101 ==> (seen@[r] <==> exists|j: int|
                        0 <= j < cards@.len() && (#[trigger] cards@[j]).0 == r),
            decreases 100 - v,
        {
            if !seen[v] {
                proof {
                    assert(!cards@.contains(Card(v as u8))) by {
                        if cards@.contains(Card(v as u8)) {
                            let j = choose|j: int| 0 <= j < cards@.len() && cards@[j] == Card(v as u8);
                            assert(cards@[j].0 == v);
                        }
                    }
                    lemma_full_deck_iff(cards@);
                    assert(is_playable(Card(v as u8)));
                    assert(!is_full_deck(cards@));
                }
                return None;
            }
            v = v + 1;
        }
        proof {
            assert forall|c: Card| cards@.contains(c) <==> is_playable(c) by {
                if is_playable(c) {
                    assert(seen@[c.0 as int]);
                    let j = choose|j: int| 0 <= j < cards@.len() && (#[trigger] cards@[j]).0 == c.0;
                    assert(cards@[j] == c);
                }
            }
            assert(cards@.no_duplicates()) by {
                assert forall|a: int, b: int|
                    0 <= a < cards@.len() && 0 <= b < cards@.len() && a != b implies cards@[a]
                    != cards@[b] by {
                    if a < b {
                        assert(cards@[a] != cards@[b]);
                    } else {
                        assert(cards@[b] != cards@[a]);
                    }
                }
            }
            lemma_full_deck_iff(cards@);
        }
        Some(Deck { cards })
    }

    /// Returns the number of cards left in this deck.
    pub fn len(&self) -> (r: usize)
        ensures
            r == self@.len(),
    {
        self.cards.len()
    }

    /// Shuffles the deck.
    pub fn shuffle(&mut self)
        ensures
            final(self)@.to_multiset() == old(self)@.to_multiset(),
    {
        shuffle_cards(&mut self.cards);
    }

    /// Draws the card on top of the deck, removing it from the deck.
    pub fn draw(&mut self) -> (r: Result<Card, GameError>)
        ensures
            old(self)@.len() == 0 ==> r == Err::<Card, GameError>(GameError::EmptyDeck)
                && final(self)@ == old(self)@,
            old(self)@.len() > 0 ==> r == Ok::<Card, GameError>(old(self)@.last())
                && final(self)@ == old(self)@.drop_last(),
    {
        match self.cards.pop() {
            Some(card) => Ok(card),
            None => Err(GameError::EmptyDeck),
        }
    }

    /// Returns `true` if this deck is empty.
    pub fn is_empty(&self) -> (r: bool)
        ensures
            r == (self@.len() == 0),
    {
        self.cards.len() == 0
    }

    /// Draws up to `n` cards into the player's hand, in draw order, stopping
    /// early when the deck runs out. Returns the cards dealt.
    pub fn deal_to_hand(&mut self, player: &mut Player, n: usize) -> (r: Vec<Card>)
        ensures
            r@.len() == if n <= old(self)@.len() { n as int } else { old(self)@.len() as int },
            r@ == drawn(old(self)@, r@.len() as int),
            final(self)@ == old(self)@.take(old(self)@.len() - r@.len()),
            final(player).hand@ == old(player).hand@ + r@,
            final(self)@.to_multiset().add(final(player).hand@.to_multiset())
                == old(self)@.to_multiset().add(old(player).hand@.to_multiset()),
    {
        let mut dealt_cards: Vec<Card> = Vec::with_capacity(n);
        let ghost deck0 = self@;
        let ghost hand0 = player.hand@;
        let mut i: usize = 0;
        while i < n
            invariant
                i <= n,
                dealt_cards@.len() == i,
                i <= deck0.len(),
                dealt_cards@ == drawn(deck0, i as int),
                self@ == deck0.take(deck0.len() - i),
                player.hand@ == hand0 + dealt_cards@,
                self@.to_multiset().add(player.hand@.to_multiset()) == deck0.to_multiset().add(
                    hand0.to_multiset(),
                ),
            ensures
                i == n || (i == deck0.len() && i < n),
            decreases n - i,
        {
            let ghost before = self@;
            let ghost hand_before = player.hand@;
            match self.draw() {
                Ok(card) => {
                    player.hand.push_card(card);
                    dealt_cards.push(card);
                    proof {
                        broadcast use vstd::seq_lib::group_to_multiset_ensures;
                        assert(before =~= self@.push(card));
                        assert(dealt_cards@ =~= drawn(deck0, i + 1));
                        assert(self@ =~= deck0.take(deck0.len() - (i + 1)));
                        assert(player.hand@ =~= hand0 + dealt_cards@);
                        assert(self@.to_multiset().add(player.hand@.to_multiset()) =~= before.to_multiset().add(hand_before.to_multiset()));
                    }
                },
                Err(_) => {
                    break;
                },
            }
            i = i + 1;
        }
        dealt_cards
    }

    /// Deals `n` cards to each player's hand, in seating order.
    pub fn deal_each(&mut self, players: &mut Vec<Player>, n: usize)
        requires
            old(players)@.len() * n <= old(self)@.len(),
        ensures
            final(players)@.len() == old(players)@.len(),
            final(self)@ == old(self)@.take(old(self)@.len() - old(players)@.len() * n),
            forall|k: int|
                0 <= k < old(players)@.len() ==> (#[trigger] final(players)@[k]).hand@ == old(
                    players,
                )@[k].hand@ + drawn(old(self)@.take(old(self)@.len() - k * n), n as int),
            final(self)@.to_multiset().add(hands_cards(final(players)@)) == old(
                self,
            )@.to_multiset().add(hands_cards(old(players)@)),
    {
        let ghost deck0 = self@;
        let ghost players0 = players@;
        let mut k: usize = 0;
        while k < players.len()
            invariant
                players@.len() == players0.len(),
                players0.len() * n <= deck0.len(),
                k <= players0.len(),
                self@ == deck0.take(deck0.len() - k * n),
                forall|j: int|
                    0 <= j < k ==> (#[trigger] players@[j]).hand@ == players0[j].hand@ + drawn(
                        deck0.take(deck0.len() - j * n),
                        n as int,
                    ),
                forall|j: int| k <= j < players0.len() ==> #[trigger] players@[j] == players0[j],
                self@.to_multiset().add(hands_cards(players@)) == deck0.to_multiset().add(
                    hands_cards(players0),
                ),
            decreases players0.len() - k,
        {
            proof {
                assert((k + 1) * n <= players0.len() * n) by (nonlinear_arith)
                    requires k + 1 <= players0.len();
                assert(k * n + n == (k + 1) * n) by (nonlinear_arith);
            }
            let ghost deck_before = self@;
            let ghost players_before = players@;
            let mut player = players.remove(k);
            let ghost player_before = player;
            self.deal_to_hand(&mut player, n);
            players.insert(k, player);
            proof {
                broadcast use vstd::multiset::group_multiset_axioms;

                assert(self@ =~= deck0.take(deck0.len() - (k + 1) * n));
                assert(players@ =~= players_before.update(k as int, player));
                lemma_hands_cards_update(players_before, k as int, player);
                let moved_from = deck_before.to_multiset().add(player_before.hand@.to_multiset());
                let moved_to = self@.to_multiset().add(player.hand@.to_multiset());
                let swapped_out = hands_cards(players@).add(player_before.hand@.to_multiset());
                let swapped_in = hands_cards(players_before).add(player.hand@.to_multiset());
                let lhs = self@.to_multiset().add(hands_cards(players@));
                let rhs = deck_before.to_multiset().add(hands_cards(players_before));
                assert forall|v: Card| #[trigger] lhs.count(v) == rhs.count(v) by {
                    assert(moved_from.count(v) == moved_to.count(v));
                    assert(swapped_out.count(v) == swapped_in.count(v));
                }
                assert(lhs =~= rhs);
            }
            k = k + 1;
        }
    }
}

impl Default for Deck {
    fn default() -> (r: Self)
        ensures
            r@ == Self::full(),
    {
        let mut cards: Vec<Card> = Vec::with_capacity(DECK_SIZE);
        let mut v: u8 = 2;
        while v < 100
            invariant
                2 <= v <= 100,
                cards@ == Seq::new((v - 2) as nat, |i: int| Card((i + 2) as u8)),
            decreases 100 - v,
        {
            cards.push(Card(v));
            proof {
                assert(cards@ =~= Seq::new((v + 1 - 2) as nat, |i: int| Card((i + 2) as u8)));
            }
            v = v + 1;
        }
        Self { cards }
    }
}

} // verus!
