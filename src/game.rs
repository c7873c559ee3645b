use vstd::prelude::*;
use vstd::multiset::Multiset;
use crate::board::Board;
use crate::card::{Card, HIGHEST_RANK, LOWEST_RANK};
use crate::deck::{drawn, is_full_deck, Deck};
use crate::error::GameError;
use crate::player::{hands_cards, lemma_hands_cards_update, Player};

verus! {

/// The most players that can sit at one game.
pub const MAX_PLAYERS: usize = 5;

/// A game status representation.
#[derive(Debug, Clone, Copy, PartialEq, Eq, Structural)]
pub enum GameStatus {
    Created,
    Playing,
    GameOver(Outcome),
}

/// How a finished game ended.
#[derive(Debug, Clone, Copy, PartialEq, Eq, Structural)]
pub enum Outcome {
    Win,
    Loss,
}

/// The cards that seed the four piles: two lowest and two highest ranks.
pub open spec fn sentinel_cards() -> Multiset<Card> {
    Multiset::empty().insert(Card(LOWEST_RANK)).insert(Card(LOWEST_RANK)).insert(
        Card(HIGHEST_RANK),
    ).insert(Card(HIGHEST_RANK))
}

/// Every card of the game: each playable rank once, and the four seeds (the
/// lowest and the highest rank twice each, one per pile).
pub open spec fn all_game_cards() -> Multiset<Card> {
    Deck::full().to_multiset().add(sentinel_cards())
}

/// All cards on the four discard piles.
pub open spec fn piles_cards(board: Board) -> Multiset<Card> {
    board.discard_piles[0]@.to_multiset().add(board.discard_piles[1]@.to_multiset()).add(
        board.discard_piles[2]@.to_multiset(),
    ).add(board.discard_piles[3]@.to_multiset())
}

/// The number of cards on the four discard piles.
pub open spec fn piles_len(board: Board) -> int {
    board.discard_piles[0]@.len() as int + board.discard_piles[1]@.len() + board.discard_piles[2]@.len()
        + board.discard_piles[3]@.len() as int
}

/// The number of discards needed before a turn may end: two while the deck
/// has cards, one once it is empty.
pub open spec fn required_actions(deck_len: int) -> int {
    if deck_len == 0 {
        1
    } else {
        2
    }
}

/// The size of the opening hand for a table of `n` players.
pub open spec fn opening_hand_size(n: int) -> int {
    if n == 1 {
        8
    } else if n == 2 {
        7
    } else {
        6
    }
}

/// The seat `k` places clockwise after `cur` at a table of `n`, for `k <= n`.
pub open spec fn seat_after(cur: int, k: int, n: int) -> int {
    if cur + k < n {
        cur + k
    } else {
        cur + k - n
    }
}

/// Whether the player at `seat` still holds cards.
pub open spec fn holds_cards(players: Seq<Player>, seat: int) -> bool {
    players[seat].hand@.len() > 0
}

/// Whether the `k`-th seat after `cur` is the first one, going clockwise and
/// wrapping around, whose player still holds cards.
pub open spec fn is_next_holder(players: Seq<Player>, cur: int, k: int) -> bool {
    &&& 1 <= k <= players.len()
    &&& holds_cards(players, seat_after(cur, k, players.len() as int))
    &&& forall|m: int|
        1 <= m < k ==> !holds_cards(players, #[trigger] seat_after(cur, m, players.len() as int))
}

/// Exchanging cards between the first and last of three places keeps the whole.
proof fn lemma_exchange(
    a: Multiset<Card>,
    b: Multiset<Card>,
    c: Multiset<Card>,
    a2: Multiset<Card>,
    c2: Multiset<Card>,
)
    requires
        a2.add(c2) == a.add(c),
    ensures
        a2.add(b).add(c2) == a.add(b).add(c),
{
    broadcast use vstd::multiset::group_multiset_axioms;

    assert forall|v: Card| #[trigger] a2.add(b).add(c2).count(v) == a.add(b).add(c).count(v) by {
        assert(a2.add(c2).count(v) == a.add(c).count(v));
        assert(a2.add(c2).count(v) == a2.count(v) + c2.count(v));
        assert(a.add(c).count(v) == a.count(v) + c.count(v));
        assert(a2.add(b).count(v) == a2.count(v) + b.count(v));
        assert(a.add(b).count(v) == a.count(v) + b.count(v));
        assert(a2.add(b).add(c2).count(v) == a2.add(b).count(v) + c2.count(v));
        assert(a.add(b).add(c).count(v) == a.add(b).count(v) + c.count(v));
    }
    assert(a2.add(b).add(c2) =~= a.add(b).add(c));
}

/// Pushing `card` onto one pile adds it to the cards on the piles.
proof fn lemma_piles_push(b: Board, b2: Board, index: int, card: Card)
    requires
        0 <= index < 4,
        forall|j: int| 0 <= j < 4 && j != index ==> #[trigger] b2.discard_piles[j] == b.discard_piles[j],
        b2.discard_piles[index]@ == b.discard_piles[index]@.push(card),
    ensures
        piles_cards(b2) == piles_cards(b).insert(card),
{
    broadcast use vstd::multiset::group_multiset_axioms;
    broadcast use vstd::seq_lib::group_to_multiset_ensures;

    assert(b2.discard_piles[index]@.to_multiset() == b.discard_piles[index]@.to_multiset().insert(card));
    if index != 0 {
        assert(b2.discard_piles[0] == b.discard_piles[0]);
    }
    if index != 1 {
        assert(b2.discard_piles[1] == b.discard_piles[1]);
    }
    if index != 2 {
        assert(b2.discard_piles[2] == b.discard_piles[2]);
    }
    if index != 3 {
        assert(b2.discard_piles[3] == b.discard_piles[3]);
    }
    assert(piles_cards(b2) =~= piles_cards(b).insert(card));
}

/// Whether every player's hand is empty.
pub open spec fn all_empty(players: Seq<Player>) -> bool {
    forall|j: int| 0 <= j < players.len() ==> !holds_cards(players, j)
}

/// The whole state of one game. The game never ends by itself: the caller
/// decides when it is over by asking `is_won` and `can_player_play_card`.
#[derive(Debug, Clone)]
pub struct Game {
    /// The number of turns taken over the course of the game.
    pub turn: usize,
    /// The player who currently has the turn.
    pub current_player_index: usize,
    /// The number of cards discarded during the current turn.
    pub actions_taken: u8,
    /// The state of the game.
    pub status: GameStatus,
    /// The deck and the discard piles.
    pub board: Board,
    /// The players in clockwise seating order.
    pub players: Vec<Player>,
}

impl Game {
    /// Every card of the game lies in exactly one place.
    pub open spec fn all_cards(&self) -> Multiset<Card> {
        self.board.deck@.to_multiset().add(piles_cards(self.board)).add(hands_cards(self.players@))
    }

    /// Whether the current player holds `card`.
    pub open spec fn current_holds(&self, card: Card) -> bool {
        self.players@.len() > 0 && self.players@[self.current_player_index as int].hand@.contains(
            card,
        )
    }

    /// The shape of a game, without the bound on the turn counter.
    pub open spec fn wf_core(&self) -> bool {
        &&& self.board.wf()
        &&& self.all_cards() == all_game_cards()
        &&& self.players@.len() <= MAX_PLAYERS
        &&& self.players@.len() == 0 ==> self.current_player_index == 0
        &&& self.players@.len() > 0 ==> self.current_player_index < self.players@.len()
        &&& self.actions_taken > 0 ==> self.players@.len() > 0
        &&& self.actions_taken + 4 <= piles_len(self.board)
        &&& self.status == GameStatus::Created ==> {
            &&& self.actions_taken == 0
            &&& all_empty(self.players@)
            &&& self.board.deck@.len() == Deck::full().len()
        }
    }

    /// A well-formed game: each discard this game is either counted in the
    /// current turn or led to a completed turn.
    pub open spec fn wf(&self) -> bool {
        &&& self.wf_core()
        &&& self.turn + self.actions_taken + 4 <= piles_len(self.board)
    }

    /// The cards are conserved: every state of a well-formed game holds each
    /// playable rank once and the four seeds, spread over deck, piles and hands.
    pub proof fn lemma_card_conservation(&self)
        requires
            self.wf(),
        ensures
            self.board.deck@.to_multiset().add(piles_cards(self.board)).add(
                hands_cards(self.players@),
            ) == all_game_cards(),
    {
    }

    /// Returns `true` if this game is in play.
    pub fn is_playing(&self) -> (r: bool)
        ensures
            r == (self.status == GameStatus::Playing),
    {
        match self.status {
            GameStatus::Playing => true,
            _ => false,
        }
    }

    /// Returns `true` if this game has not started yet.
    pub fn is_created(&self) -> (r: bool)
        ensures
            r == (self.status == GameStatus::Created),
    {
        match self.status {
            GameStatus::Created => true,
            _ => false,
        }
    }

    /// Returns how the game ended, if it is over.
    pub fn outcome(&self) -> (r: Option<Outcome>)
        ensures
            r == (match self.status {
                GameStatus::GameOver(o) => Some(o),
                _ => None::<Outcome>,
            }),
    {
        if let GameStatus::GameOver(outcome) = self.status {
            Some(outcome)
        } else {
            None
        }
    }

    /// Returns the current player.
    pub fn get_current_player(&self) -> (r: &Player)
        requires
            self.current_player_index < self.players@.len(),
        ensures
            *r == self.players@[self.current_player_index as int],
    {
        &self.players[self.current_player_index]
    }

    /// Returns true if the current player has a card that fits some pile.
    pub fn can_player_play_card(&self) -> (r: bool)
        requires
            self.wf(),
            self.players@.len() > 0,
        ensures
            r == self.players@[self.current_player_index as int].has_move(&self.board),
    {
        self.get_current_player().can_play_a_card(&self.board)
    }

    /// Returns the number of discards needed before the turn may end: `2`
    /// while the deck has cards, `1` once it is empty.
    pub fn get_remaining_actions(&self) -> (r: u8)
        ensures
            r == required_actions(self.board.deck@.len() as int),
    {
        if self.board.deck.is_empty() {
            1
        } else {
            2
        }
    }

    /// Returns the players of this game in seating order.
    pub fn players(&self) -> (r: &[Player])
        ensures
            r@ == self.players@,
    {
        self.players.as_slice()
    }

    /// Seats a new player, with an empty hand, after the others.
    pub fn add_player(&mut self)
        requires
            old(self).wf(),
            old(self).players@.len() < MAX_PLAYERS,
        ensures
            final(self).wf(),
            final(self).players@ == old(self).players@.push(final(self).players@.last()),
            final(self).players@.last().hand@.len() == 0,
            final(self).board == old(self).board,
            final(self).status == old(self).status,
            final(self).turn == old(self).turn,
            final(self).actions_taken == old(self).actions_taken,
            final(self).current_player_index == old(self).current_player_index,
    {
        let ghost before = self.players@;
        let p = Player::new();
        self.players.push(p);
        proof {
            broadcast use vstd::seq_lib::group_to_multiset_ensures;

            assert(self.players@.drop_last() =~= before);
            assert(p.hand@.to_multiset() =~= Multiset::empty());
            assert(hands_cards(self.players@) =~= hands_cards(before));
            assert(self.all_cards() == old(self).all_cards());
            assert forall|j: int| 0 <= j < self.players@.len() && old(self).status == GameStatus::Created
                implies !holds_cards(self.players@, j) by {
                if j < before.len() {
                    assert(self.players@[j] == before[j]);
                    assert(!holds_cards(before, j));
                }
            }
        }
    }

    /// Returns the size of the opening hand for the number of seated players.
    pub fn max_hand_size(&self) -> (r: usize)
        ensures
            r == opening_hand_size(self.players@.len() as int),
    {
        match self.players.len() {
            1 => 8,
            2 => 7,
            _ => 6,
        }
    }

    /// Returns `true` if all hands are empty.
    pub fn all_hands_empty(&self) -> (r: bool)
        ensures
            r == all_empty(self.players@),
    {
        let mut i: usize = 0;
        while i < self.players.len()
            invariant
                i <= self.players@.len(),
                forall|j: int| 0 <= j < i ==> !holds_cards(self.players@, j),
            decreases self.players@.len() - i,
        {
            if !self.players[i].hand.is_empty() {
                assert(holds_cards(self.players@, i as int));
                return false;
            }
            i = i + 1;
        }
        true
    }

    /// Returns `true` when the deck and every hand are empty.
    pub fn is_won(&self) -> (r: bool)
        ensures
            r == (self.board.deck@.len() == 0 && all_empty(self.players@)),
    {
        self.board.deck.is_empty() && self.all_hands_empty()
    }

    /// Starts the game: deals every player an opening hand whose size
    /// depends on the number of players.
    pub fn start(&mut self) -> (r: Result<(), GameError>)
        requires
            old(self).wf(),
        ensures
            final(self).wf(),
            old(self).status != GameStatus::Created ==> r == Err::<(), GameError>(
                GameError::AlreadyRunning,
            ) && *final(self) == *old(self),
            old(self).status == GameStatus::Created ==> r is Ok && final(self).status
                == GameStatus::Playing,
            r is Ok ==> {
                let size = opening_hand_size(old(self).players@.len() as int);
                let deck = old(self).board.deck@;
                &&& final(self).players@.len() == old(self).players@.len()
                &&& forall|k: int|
                    0 <= k < old(self).players@.len() ==> (#[trigger] final(self).players@[k]).hand@.len()
                        == size
                &&& forall|k: int|
                    0 <= k < old(self).players@.len() ==> (#[trigger] final(self).players@[k]).hand@
                        == drawn(deck.take(deck.len() - k * size), size)
                &&& final(self).board.deck@ == deck.take(deck.len() - old(self).players@.len() * size)
                &&& final(self).board.discard_piles == old(self).board.discard_piles
                &&& final(self).turn == old(self).turn
                &&& final(self).current_player_index == old(self).current_player_index
                &&& final(self).actions_taken == old(self).actions_taken
            },
    {
        if !self.is_created() {
            return Err(GameError::AlreadyRunning);
        }
        self.status = GameStatus::Playing;
        self.deal_hands();
        Ok(())
    }

    /// Deals an opening hand to every player.
    fn deal_hands(&mut self)
        requires
            old(self).wf(),
            old(self).status == GameStatus::Playing,
            all_empty(old(self).players@),
            old(self).board.deck@.len() == Deck::full().len(),
        ensures
            final(self).wf(),
            final(self).status == old(self).status,
            final(self).players@.len() == old(self).players@.len(),
            forall|k: int|
                0 <= k < old(self).players@.len() ==> (#[trigger] final(self).players@[k]).hand@
                    == drawn(
                    old(self).board.deck@.take(
                        old(self).board.deck@.len() - k * opening_hand_size(
                            old(self).players@.len() as int,
                        ),
                    ),
                    opening_hand_size(old(self).players@.len() as int),
                ),
            final(self).board.deck@ == old(self).board.deck@.take(
                old(self).board.deck@.len() - old(self).players@.len() * opening_hand_size(
                    old(self).players@.len() as int,
                ),
            ),
            final(self).board.discard_piles == old(self).board.discard_piles,
            final(self).turn == old(self).turn,
            final(self).current_player_index == old(self).current_player_index,
            final(self).actions_taken == old(self).actions_taken,
    {
        let size = self.max_hand_size();
        let ghost players0 = self.players@;
        proof {
            assert(players0.len() * size <= 5 * 8) by (nonlinear_arith)
                requires players0.len() <= 5, size <= 8;
            assert(Deck::full().len() == 98);
            assert forall|k: int| 0 <= k < players0.len() implies (#[trigger] players0[k]).hand@
                =~= Seq::<Card>::empty() by {
                assert(!holds_cards(players0, k));
            }
        }
        self.board.deck.deal_each(&mut self.players, size);
        proof {
            lemma_exchange(
                old(self).board.deck@.to_multiset(),
                piles_cards(self.board),
                hands_cards(players0),
                self.board.deck@.to_multiset(),
                hands_cards(self.players@),
            );
            assert forall|k: int| 0 <= k < players0.len() implies (#[trigger] self.players@[k]).hand@
                == drawn(
                old(self).board.deck@.take(old(self).board.deck@.len() - k * size),
                size as int,
            ) by {
                assert(players0[k].hand@ + drawn(
                    old(self).board.deck@.take(old(self).board.deck@.len() - k * size),
                    size as int,
                ) =~= drawn(
                    old(self).board.deck@.take(old(self).board.deck@.len() - k * size),
                    size as int,
                ));
            }
        }
    }

    /// The piles never hold more than the game's 102 cards; so in a
    /// well-formed game the turn counter stays far below `usize::MAX`.
    pub proof fn lemma_piles_len_bound(&self)
        requires
            self.wf_core(),
        ensures
            piles_len(self.board) <= 102,
    {
        broadcast use vstd::multiset::group_multiset_axioms;
        broadcast use vstd::seq_lib::group_to_multiset_ensures;
        broadcast use vstd::multiset::lemma_insert_len;

        assert(Deck::full().len() == 98);
        assert(sentinel_cards().len() == 4);
        assert(all_game_cards().len() == 102);
        assert(piles_cards(self.board).len() == piles_len(self.board));
    }

    /// Returns the seat of the next player, clockwise from the current one
    /// and wrapping around, who still holds cards; `None` if every hand is empty.
    pub fn next_player_index(&self) -> (r: Option<usize>)
        requires
            self.players@.len() <= MAX_PLAYERS,
            self.players@.len() == 0 || self.current_player_index < self.players@.len(),
        ensures
            r is None <==> all_empty(self.players@),
            r matches Some(j) ==> exists|k: int|
                is_next_holder(self.players@, self.current_player_index as int, k) && j
                    == seat_after(self.current_player_index as int, k, self.players@.len() as int),
    {
        let n = self.players.len();
        let cur = self.current_player_index;
        let mut k: usize = 1;
        while k <= n
            invariant
                n == self.players@.len(),
                n <= MAX_PLAYERS,
                cur == self.current_player_index,
                n == 0 || cur < n,
                1 <= k <= n + 1,
                forall|m: int| 1 <= m < k ==> !holds_cards(self.players@, #[trigger] seat_after(cur as int, m, n as int)),
            decreases n + 1 - k,
        {
            let seat: usize = if cur + k < n {
                cur + k
            } else {
                cur + k - n
            };
            if !self.players[seat].hand.is_empty() {
                proof {
                    assert(is_next_holder(self.players@, cur as int, k as int));
                }
                return Some(seat);
            }
            k = k + 1;
        }
        proof {
            assert forall|j: int| 0 <= j < n implies !holds_cards(self.players@, j) by {
                let m = if j > cur { j - cur } else { j + n - cur };
                assert(seat_after(cur as int, m, n as int) == j);
            }
        }
        None
    }

    /// Passes the turn to the next player who still holds cards, counting a
    /// new turn; does nothing when every hand is empty.
    pub fn next_turn(&mut self)
        requires
            old(self).wf_core(),
            old(self).turn < usize::MAX,
        ensures
            final(self).wf_core(),
            final(self).board == old(self).board,
            final(self).players == old(self).players,
            final(self).status == old(self).status,
            final(self).actions_taken == old(self).actions_taken,
            all_empty(old(self).players@) ==> final(self).current_player_index
                == old(self).current_player_index && final(self).turn == old(self).turn,
            !all_empty(old(self).players@) ==> final(self).turn == old(self).turn + 1 && exists|k: int|
                is_next_holder(old(self).players@, old(self).current_player_index as int, k)
                    && final(self).current_player_index == seat_after(
                    old(self).current_player_index as int,
                    k,
                    old(self).players@.len() as int,
                ),
    {
        if let Some(next_index) = self.next_player_index() {
            self.current_player_index = next_index;
            self.turn = self.turn + 1;
        }
    }

    /// Moves `card` from the current player's hand onto the discard pile at
    /// `index`, counting one action of the turn.
    pub fn discard_card(&mut self, index: usize, card: &Card) -> (r: Result<(), GameError>)
        requires
            old(self).wf(),
            index < 4,
        ensures
            final(self).wf(),
            old(self).status != GameStatus::Playing ==> r == Err::<(), GameError>(GameError::NotRunning),
            old(self).status == GameStatus::Playing && !old(self).board.discard_piles[index as int].accepts(
                *card,
            ) ==> r == Err::<(), GameError>(GameError::IllegalPlay),
            old(self).status == GameStatus::Playing && old(self).board.discard_piles[index as int].accepts(
                *card,
            ) && !old(self).current_holds(*card) ==> r == Err::<(), GameError>(
                GameError::CardNotInHand,
            ),
            old(self).status == GameStatus::Playing && old(self).current_holds(*card) && old(self).board.discard_piles[index as int].accepts(*card) ==> r is Ok,
            r is Err ==> *final(self) == *old(self),
            r is Ok ==> {
                let cur = old(self).current_player_index as int;
                let hand = old(self).players@[cur].hand@;
                &&& final(self).actions_taken == old(self).actions_taken + 1
                &&& final(self).board.deck == old(self).board.deck
                &&& final(self).board.discard_piles[index as int]@ == old(self).board.discard_piles[index as int]@.push(*card)
                &&& forall|j: int|
                    0 <= j < 4 && j != index ==> #[trigger] final(self).board.discard_piles[j]
                        == old(self).board.discard_piles[j]
                &&& final(self).players@.len() == old(self).players@.len()
                &&& forall|p: int|
                    0 <= p < old(self).players@.len() && p != cur ==> #[trigger] final(self).players@[p] == old(self).players@[p]
                &&& exists|i: int|
                    0 <= i < hand.len() && hand[i] == *card && (forall|m: int|
                        0 <= m < i ==> hand[m] != *card) && final(self).players@[cur].hand@
                        == hand.remove(i)
                &&& final(self).turn == old(self).turn
                &&& final(self).current_player_index == old(self).current_player_index
                &&& final(self).status == old(self).status
            },
    {
        if !self.is_playing() {
            return Err(GameError::NotRunning);
        }
        if !self.board.discard_piles[index].can_play_card(card) {
            return Err(GameError::IllegalPlay);
        }
        if self.players.len() == 0 {
            return Err(GameError::CardNotInHand);
        }
        let cur = self.current_player_index;
        let pos = self.players[cur].hand.position(card);
        let i = match pos {
            Some(i) => i,
            None => {
                return Err(GameError::CardNotInHand);
            },
        };
        proof {
            self.lemma_piles_len_bound();
        }
        let ghost players0 = self.players@;
        let ghost board0 = self.board;
        let mut player = self.players.remove(cur);
        let ghost player0 = player;
        let played = player.hand.play(i);
        self.players.insert(cur, player);
        let res = self.board.discard_card(index, card);
        self.actions_taken = self.actions_taken + 1;
        proof {
            broadcast use vstd::multiset::group_multiset_axioms;
            broadcast use vstd::seq_lib::group_to_multiset_ensures;

            assert(self.players@ =~= players0.update(cur as int, player));
            lemma_hands_cards_update(players0, cur as int, player);
            lemma_piles_push(board0, self.board, index as int, *card);
            let hand0 = player0.hand@.to_multiset();
            let hand1 = player.hand@.to_multiset();
            assert(hand1 == hand0.remove(*card));
            let hs0 = hands_cards(players0);
            let hs1 = hands_cards(self.players@);
            let d = self.board.deck@.to_multiset();
            let p0 = piles_cards(board0);
            let p1 = piles_cards(self.board);
            assert(hs1.add(hand0) == hs0.add(hand1));
            assert forall|v: Card| #[trigger] d.add(p1).add(hs1).count(v) == d.add(p0).add(hs0).count(v) by {
                assert(hs1.add(hand0).count(v) == hs0.add(hand1).count(v));
                assert(hand0.count(*card) > 0);
            }
            assert(self.all_cards() =~= old(self).all_cards());
            assert(player0.hand@[i as int] == *card);
        }
        Ok(())
    }

    /// Ends the current player's turn once enough cards were discarded (only
    /// while the game is being played):
    /// draws up to two cards into that player's hand, resets the action count
    /// and passes the turn on. Returns the cards drawn.
    pub fn end_turn(&mut self) -> (r: Result<Vec<Card>, GameError>)
        requires
            old(self).wf(),
        ensures
            final(self).wf(),
            old(self).status != GameStatus::Playing ==> r == Err::<Vec<Card>, GameError>(
                GameError::NotRunning,
            ) && *final(self) == *old(self),
            old(self).status == GameStatus::Playing && old(self).actions_taken < required_actions(
                old(self).board.deck@.len() as int,
            ) ==> r == Err::<Vec<Card>, GameError>(GameError::ActionRequired) && *final(self)
                == *old(self),
            old(self).status == GameStatus::Playing && old(self).actions_taken >= required_actions(
                old(self).board.deck@.len() as int,
            ) ==> r is Ok,
            r is Ok ==> {
                let dealt = r->Ok_0@;
                let cur = old(self).current_player_index as int;
                let deck = old(self).board.deck@;
                &&& dealt.len() == if deck.len() >= 2 { 2 } else { deck.len() as int }
                &&& dealt == drawn(deck, dealt.len() as int)
                &&& final(self).board.deck@ == deck.take(deck.len() - dealt.len())
                &&& final(self).board.discard_piles == old(self).board.discard_piles
                &&& final(self).players@.len() == old(self).players@.len()
                &&& final(self).players@[cur].hand@ == old(self).players@[cur].hand@ + dealt
                &&& forall|p: int|
                    0 <= p < old(self).players@.len() && p != cur ==> #[trigger] final(self).players@[p] == old(self).players@[p]
                &&& final(self).actions_taken == 0
                &&& final(self).status == old(self).status
                &&& all_empty(final(self).players@) ==> final(self).current_player_index
                    == old(self).current_player_index && final(self).turn == old(self).turn
                &&& !all_empty(final(self).players@) ==> final(self).turn == old(self).turn + 1
                    && exists|k: int|
                    is_next_holder(final(self).players@, cur, k)
                        && final(self).current_player_index == seat_after(
                        cur,
                        k,
                        old(self).players@.len() as int,
                    )
            },
    {
        if !self.is_playing() {
            return Err(GameError::NotRunning);
        }
        if self.actions_taken < self.get_remaining_actions() {
            return Err(GameError::ActionRequired);
        }
        proof {
            self.lemma_piles_len_bound();
        }
        let dealt_cards = self.deal_cards();
        self.actions_taken = 0;
        self.next_turn();
        Ok(dealt_cards)
    }

    /// Draws up to two cards from the top of the deck into the current
    /// player's hand.
    fn deal_cards(&mut self) -> (r: Vec<Card>)
        requires
            old(self).wf_core(),
            old(self).players@.len() > 0,
            old(self).status != GameStatus::Created,
        ensures
            final(self).wf_core(),
            r@.len() == if old(self).board.deck@.len() >= 2 { 2 } else { old(self).board.deck@.len() as int },
            r@ == drawn(old(self).board.deck@, r@.len() as int),
            final(self).board.deck@ == old(self).board.deck@.take(old(self).board.deck@.len() - r@.len()),
            final(self).board.discard_piles == old(self).board.discard_piles,
            final(self).players@ == old(self).players@.update(
                old(self).current_player_index as int,
                final(self).players@[old(self).current_player_index as int],
            ),
            final(self).players@[old(self).current_player_index as int].hand@ == old(self).players@[old(self).current_player_index as int].hand@ + r@,
            final(self).turn == old(self).turn,
            final(self).current_player_index == old(self).current_player_index,
            final(self).actions_taken == old(self).actions_taken,
            final(self).status == old(self).status,
    {
        let cur = self.current_player_index;
        let ghost players0 = self.players@;
        let ghost deck0 = self.board.deck@;
        let mut player = self.players.remove(cur);
        let ghost player0 = player;
        let dealt = self.board.deck.deal_to_hand(&mut player, 2);
        self.players.insert(cur, player);
        proof {
            assert(self.players@ =~= players0.update(cur as int, player));
            lemma_hands_cards_update(players0, cur as int, player);
            let d0 = deck0.to_multiset();
            let d1 = self.board.deck@.to_multiset();
            let h0 = player0.hand@.to_multiset();
            let h1 = player.hand@.to_multiset();
            let hs0 = hands_cards(players0);
            let hs1 = hands_cards(self.players@);
            assert forall|v: Card| #[trigger] d1.add(hs1).count(v) == d0.add(hs0).count(v) by {
                broadcast use vstd::multiset::group_multiset_axioms;

                assert(d1.add(h1).count(v) == d0.add(h0).count(v));
                assert(hs1.add(h0).count(v) == hs0.add(h1).count(v));
            }
            assert(d1.add(hs1) =~= d0.add(hs0));
            lemma_exchange(
                deck0.to_multiset(),
                piles_cards(self.board),
                hands_cards(players0),
                self.board.deck@.to_multiset(),
                hands_cards(self.players@),
            );
        }
        dealt
    }

    /// Returns a new game with a shuffled deck and no players.
    pub fn new() -> (r: Game)
        ensures
            r.wf(),
            r.turn == 0,
            r.current_player_index == 0,
            r.actions_taken == 0,
            r.status == GameStatus::Created,
            r.players@.len() == 0,
            r.board.deck@.to_multiset() == Deck::full().to_multiset(),
            r.board.discard_piles[0]@ == seq![Card(LOWEST_RANK)],
            r.board.discard_piles[1]@ == seq![Card(LOWEST_RANK)],
            r.board.discard_piles[2]@ == seq![Card(HIGHEST_RANK)],
            r.board.discard_piles[3]@ == seq![Card(HIGHEST_RANK)],
    {
        Self::with_deck(Deck::new_shuffled())
    }

    /// Returns a new game without players whose deck is `deck`, for a
    /// caller that chooses the order of the cards.
    pub fn with_deck(deck: Deck) -> (r: Game)
        requires
            is_full_deck(deck@),
        ensures
            r.board.deck == deck,
            r.wf(),
            r.turn == 0,
            r.current_player_index == 0,
            r.actions_taken == 0,
            r.status == GameStatus::Created,
            r.players@.len() == 0,
            r.board.discard_piles[0]@ == seq![Card(LOWEST_RANK)],
            r.board.discard_piles[1]@ == seq![Card(LOWEST_RANK)],
            r.board.discard_piles[2]@ == seq![Card(HIGHEST_RANK)],
            r.board.discard_piles[3]@ == seq![Card(HIGHEST_RANK)],
    {
        let g = Self {
            turn: 0,
            current_player_index: 0,
            actions_taken: 0,
            status: GameStatus::Created,
            board: Board::with_deck(deck),
            players: Vec::with_capacity(MAX_PLAYERS),
        };
        proof {
            broadcast use vstd::seq_lib::group_to_multiset_ensures;

            assert(seq![Card(LOWEST_RANK)] =~= Seq::<Card>::empty().push(Card(LOWEST_RANK)));
            assert(seq![Card(HIGHEST_RANK)] =~= Seq::<Card>::empty().push(Card(HIGHEST_RANK)));
            assert(Seq::<Card>::empty().to_multiset() =~= Multiset::empty());
            assert(piles_cards(g.board) =~= sentinel_cards());
            assert(hands_cards(g.players@) == Multiset::<Card>::empty());
            assert(g.all_cards() =~= all_game_cards());
            assert(g.board.deck@.to_multiset().len() == Deck::full().to_multiset().len());
            assert(g.board.deck@.len() == Deck::full().len());
            assert(g.wf_core());
        }
        g
    }
}

} // verus!
