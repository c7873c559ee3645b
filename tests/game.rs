use the_game_core::board::Board;
use the_game_core::card::Card;
use the_game_core::deck::Deck;
use the_game_core::error::GameError;
use the_game_core::game::{Game, GameStatus};

fn game_with(n: usize) -> Game {
    let mut game = Game::new();
    for _ in 0..n {
        game.add_player();
    }
    game
}

fn all_ranks(game: &Game) -> Vec<u8> {
    let mut v: Vec<u8> = game.board.deck.cards.iter().map(|c| c.0).collect();
    for pile in game.board.discard_piles.iter() {
        v.extend(pile.cards.iter().map(|c| c.0));
    }
    for player in game.players() {
        v.extend(player.hand().iter().map(|c| c.0));
    }
    v.sort();
    v
}

fn expected_ranks() -> Vec<u8> {
    let mut v: Vec<u8> = vec![1, 1];
    v.extend(2..=99);
    v.extend([100, 100]);
    v
}

fn hands(game: &Game) -> Vec<Vec<Card>> {
    game.players().iter().map(|p| p.hand().to_vec()).collect()
}

fn piles(game: &Game) -> Vec<Vec<Card>> {
    game.board.discard_piles.iter().map(|p| p.cards.clone()).collect()
}

#[test]
fn opening_hand_sizes() {
    for (n, size) in [(1usize, 8usize), (2, 7), (3, 6), (4, 6), (5, 6)] {
        let mut game = game_with(n);
        assert_eq!(game.max_hand_size(), size);
        assert_eq!(game.start(), Ok(()));
        for player in game.players() {
            assert_eq!(player.hand().len(), size);
        }
        assert_eq!(game.board.deck.len(), 98 - n * size);
        assert_eq!(all_ranks(&game), expected_ranks());
    }
}

#[test]
fn start_only_once() {
    let mut game = game_with(2);
    assert!(game.is_created());
    assert!(!game.is_playing());
    assert_eq!(game.start(), Ok(()));
    assert!(game.is_playing());
    assert_eq!(game.start(), Err(GameError::AlreadyRunning));
    assert_eq!(game.outcome(), None);
}

#[test]
fn discard_before_start_is_refused() {
    let mut game = game_with(1);
    assert_eq!(game.discard_card(0, &Card(50)), Err(GameError::NotRunning));
    assert_eq!(game.actions_taken, 0);
}

#[test]
fn discard_of_card_not_held_is_refused() {
    let mut game = game_with(1);
    game.start().unwrap();
    let held: Vec<u8> = game.players()[0].hand().iter().map(|c| c.0).collect();
    let missing = (2..=99u8).find(|r| !held.contains(r)).unwrap();
    let before_hands = hands(&game);
    assert_eq!(game.discard_card(0, &Card(missing)), Err(GameError::CardNotInHand));
    assert_eq!(hands(&game), before_hands);
    assert_eq!(game.actions_taken, 0);
}

#[test]
fn failed_calls_leave_state_unchanged() {
    let mut game = game_with(2);
    game.start().unwrap();
    let card = game.players()[0].hand()[0];
    game.discard_card(0, &card).unwrap();
    let before_hands = hands(&game);
    let before_piles = piles(&game);
    // The ascending pile now shows `card`; any held card more than ten below it is illegal there.
    let illegal = game.players()[0]
        .hand()
        .iter()
        .copied()
        .find(|c| c.0 < card.0 && c.0 + 10 != card.0);
    if let Some(c) = illegal {
        assert_eq!(game.discard_card(0, &c), Err(GameError::IllegalPlay));
    }
    assert_eq!(game.end_turn(), Err(GameError::ActionRequired));
    assert_eq!(game.actions_taken, 1);
    assert_eq!(game.current_player_index, 0);
    assert_eq!(game.turn, 0);
    assert_eq!(hands(&game), before_hands);
    assert_eq!(piles(&game), before_piles);
}

#[test]
fn action_budget_with_cards_in_deck() {
    let mut game = game_with(1);
    game.start().unwrap();
    assert_eq!(game.get_remaining_actions(), 2);
    assert_eq!(game.end_turn(), Err(GameError::ActionRequired));
    let c1 = game.players()[0].hand()[0];
    game.discard_card(0, &c1).unwrap();
    assert_eq!(game.end_turn(), Err(GameError::ActionRequired));
    let c2 = game.players()[0].hand()[0];
    game.discard_card(2, &c2).unwrap();
    assert_eq!(game.actions_taken, 2);
    let dealt = game.end_turn().unwrap();
    assert_eq!(dealt.len(), 2);
    assert_eq!(game.actions_taken, 0);
    assert_eq!(game.turn, 1);
    assert_eq!(game.current_player_index, 0);
}

#[test]
fn action_budget_with_empty_deck() {
    let mut game = game_with(1);
    game.start().unwrap();
    while !game.board.deck.is_empty() {
        game.board.deck.draw().unwrap();
    }
    assert_eq!(game.get_remaining_actions(), 1);
    let c = game.players()[0].hand()[0];
    game.discard_card(0, &c).unwrap();
    let dealt = game.end_turn().unwrap();
    assert!(dealt.is_empty());
    assert_eq!(game.actions_taken, 0);
}

#[test]
fn next_player_skips_empty_hands_and_wraps() {
    let mut game = game_with(3);
    game.start().unwrap();
    game.players[1].hand.cards.clear();
    assert_eq!(game.next_player_index(), Some(2));
    game.current_player_index = 2;
    assert_eq!(game.next_player_index(), Some(0));
    game.players[0].hand.cards.clear();
    assert_eq!(game.next_player_index(), Some(2));
    game.players[2].hand.cards.clear();
    assert_eq!(game.next_player_index(), None);
    game.next_turn();
    assert_eq!(game.current_player_index, 2);
    assert_eq!(game.turn, 0);
    assert!(game.all_hands_empty());
}

#[test]
fn next_turn_advances_clockwise() {
    let mut game = game_with(3);
    game.start().unwrap();
    game.next_turn();
    assert_eq!(game.current_player_index, 1);
    assert_eq!(game.turn, 1);
    game.next_turn();
    game.next_turn();
    assert_eq!(game.current_player_index, 0);
    assert_eq!(game.turn, 3);
}

#[test]
fn two_player_round() {
    let mut game = game_with(2);
    game.start().unwrap();
    assert_eq!(game.board.deck.len(), 98 - 14);
    for player in game.players() {
        assert_eq!(player.hand().len(), 7);
    }
    let c1 = game.players()[0].hand()[0];
    assert_eq!(game.discard_card(0, &c1), Ok(()));
    assert_eq!(game.actions_taken, 1);
    let c2 = game.players()[0].hand()[0];
    assert_eq!(game.discard_card(2, &c2), Ok(()));
    assert_eq!(game.actions_taken, 2);
    assert_eq!(game.board.discard_piles[0].peek_top_card(), &c1);
    assert_eq!(game.board.discard_piles[2].peek_top_card(), &c2);
    let deck_top: Vec<Card> = game.board.deck.cards.iter().rev().take(2).copied().collect();
    let dealt = game.end_turn().unwrap();
    assert_eq!(dealt, deck_top);
    assert_eq!(game.players()[0].hand().len(), 7);
    assert_eq!(&game.players()[0].hand()[5..], &dealt[..]);
    assert_eq!(game.actions_taken, 0);
    assert_eq!(game.current_player_index, 1);
    assert_eq!(game.turn, 1);
    assert_eq!(game.board.deck.len(), 98 - 16);
    assert_eq!(all_ranks(&game), expected_ranks());
}

#[test]
fn board_accepts_any_card_at_start() {
    let board = Board::new();
    assert!(board.can_play_card(&Card(2)));
    assert!(board.can_play_card(&Card(99)));
    let game = game_with(1);
    assert!(!game.is_won());
}

#[test]
fn current_player_can_move_at_start() {
    let mut game = game_with(2);
    game.start().unwrap();
    assert!(game.can_player_play_card());
    assert_eq!(game.status, GameStatus::Playing);
}

#[test]
fn error_messages() {
    assert_eq!(GameError::IllegalPlay.message(), "Can't play that card");
    assert_eq!(GameError::ActionRequired.message(), "An action is required before completing the turn");
}

fn ascending_deck() -> Deck {
    let cards: Vec<Card> = (2..=99u8).map(Card).collect();
    Deck::from_cards(cards).unwrap()
}

#[test]
fn two_player_round_with_fixed_deck() {
    let mut game = Game::with_deck(ascending_deck());
    game.add_player();
    game.add_player();
    game.start().unwrap();
    let p0: Vec<u8> = game.players()[0].hand().iter().map(|c| c.0).collect();
    let p1: Vec<u8> = game.players()[1].hand().iter().map(|c| c.0).collect();
    assert_eq!(p0, vec![99, 98, 97, 96, 95, 94, 93]);
    assert_eq!(p1, vec![92, 91, 90, 89, 88, 87, 86]);
    assert_eq!(game.board.deck.len(), 84);
    assert_eq!(game.discard_card(0, &Card(99)), Ok(()));
    assert_eq!(game.actions_taken, 1);
    assert_eq!(game.discard_card(2, &Card(93)), Ok(()));
    assert_eq!(game.actions_taken, 2);
    assert_eq!(game.end_turn(), Ok(vec![Card(85), Card(84)]));
    let p0: Vec<u8> = game.players()[0].hand().iter().map(|c| c.0).collect();
    assert_eq!(p0, vec![98, 97, 96, 95, 94, 85, 84]);
    assert_eq!(game.actions_taken, 0);
    assert_eq!(game.current_player_index, 1);
    assert_eq!(game.turn, 1);
    assert_eq!(all_ranks(&game), expected_ranks());
    // Pile 0 shows 99: only 89 (ten below) may go there from player 1's hand.
    assert_eq!(game.discard_card(0, &Card(90)), Err(GameError::IllegalPlay));
    assert_eq!(game.discard_card(0, &Card(89)), Ok(()));
    assert_eq!(game.board.discard_piles[0].peek_top_card(), &Card(89));
}

#[test]
fn from_cards_accepts_only_full_decks() {
    let full: Vec<Card> = (2..=99u8).rev().map(Card).collect();
    assert_eq!(Deck::from_cards(full.clone()).map(|d| d.cards), Some(full.clone()));
    let mut short = full.clone();
    short.pop();
    assert!(Deck::from_cards(short.clone()).is_none());
    let mut repeated = short.clone();
    repeated.push(Card(50));
    assert!(Deck::from_cards(repeated).is_none());
    let mut sentinel = short.clone();
    sentinel.push(Card(1));
    assert!(Deck::from_cards(sentinel).is_none());
    let mut extra = full.clone();
    extra.push(Card(100));
    assert!(Deck::from_cards(extra).is_none());
    assert!(Deck::from_cards(Vec::new()).is_none());
}

#[test]
fn won_when_deck_and_hands_are_empty() {
    let mut game = Game::with_deck(ascending_deck());
    game.add_player();
    game.start().unwrap();
    assert!(!game.is_won());
    while !game.board.deck.is_empty() {
        game.board.deck.draw().unwrap();
    }
    game.players[0].hand.cards.clear();
    assert!(game.all_hands_empty());
    assert!(game.is_won());
}

#[test]
fn end_turn_outside_play_is_refused() {
    let mut game = game_with(2);
    assert_eq!(game.end_turn(), Err(GameError::NotRunning));
    assert_eq!(game.turn, 0);
    assert_eq!(game.board.deck.len(), 98);
    game.start().unwrap();
    game.status = GameStatus::GameOver(the_game_core::game::Outcome::Win);
    game.actions_taken = 2;
    let before_hands = hands(&game);
    assert_eq!(game.end_turn(), Err(GameError::NotRunning));
    assert_eq!(hands(&game), before_hands);
    assert_eq!(game.actions_taken, 2);
    assert_eq!(game.outcome(), Some(the_game_core::game::Outcome::Win));
}

#[test]
fn illegal_play_is_reported_before_hand_membership() {
    let mut game = Game::with_deck(ascending_deck());
    game.add_player();
    game.add_player();
    game.start().unwrap();
    // Player 0 holds 93..=99; pile 0 then shows 99.
    game.discard_card(0, &Card(99)).unwrap();
    // 50 is neither held by player 0 nor legal on pile 0.
    assert_eq!(game.discard_card(0, &Card(50)), Err(GameError::IllegalPlay));
    // 89 is legal on pile 0 (ten below) but held by player 1.
    assert_eq!(game.discard_card(0, &Card(89)), Err(GameError::CardNotInHand));
    assert_eq!(game.actions_taken, 1);
}
