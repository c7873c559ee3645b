use the_game_core::abs_diff_eq::AbsDiffEq;
use the_game_core::card::Card;
use the_game_core::discard_pile::{Direction, DiscardPile};
use the_game_core::error::GameError;

#[test]
fn test_place_card() {
    let expected_card = &Card(20);
    let mut discard_pile_up = DiscardPile::new_up();
    assert!(discard_pile_up.discard_card(expected_card).is_ok());
    assert_eq!(discard_pile_up.peek_top_card(), expected_card);
}

#[test]
fn test_rule10() {
    let mut discard_pile_up = DiscardPile::new_up();
    assert!(discard_pile_up.discard_card(&Card(20)).is_ok());
    assert_eq!(discard_pile_up.is_card_corresponds_rule10(&Card(10)), true);
    assert_eq!(discard_pile_up.is_card_corresponds_rule10(&Card(30)), false);
}

fn up_pile_at_20() -> DiscardPile {
    DiscardPile::new(Card(20), Direction::Up)
}

#[test]
fn up_pile_truth_table() {
    let pile = up_pile_at_20();
    assert!(pile.can_play_card(&Card(21)));
    assert!(pile.can_play_card(&Card(30)));
    assert!(!pile.can_play_card(&Card(19)));
    assert!(pile.can_play_card(&Card(10)));
    assert!(!pile.can_play_card(&Card(11)));
    assert!(!pile.can_play_card(&Card(9)));
    assert!(!pile.can_play_card(&Card(20)));
}

#[test]
fn down_pile_truth_table() {
    let pile = DiscardPile::new(Card(50), Direction::Down);
    assert!(pile.can_play_card(&Card(49)));
    assert!(pile.can_play_card(&Card(40)));
    assert!(pile.can_play_card(&Card(60)));
    assert!(!pile.can_play_card(&Card(51)));
    assert!(!pile.can_play_card(&Card(59)));
    assert!(!pile.can_play_card(&Card(61)));
    assert!(!pile.can_play_card(&Card(50)));
}

#[test]
fn rule_of_ten_is_symmetric() {
    assert!(10u8.abs_diff_eq(&20, 10));
    assert!(20u8.abs_diff_eq(&10, 10));
    assert!(!20u8.abs_diff_eq(&11, 10));
    assert!(!11u8.abs_diff_eq(&20, 10));
    assert!(0u8.abs_diff_eq(&255, 255));
    assert!(255u8.abs_diff_eq(&0, 255));
    assert!(7u8.abs_diff_eq(&7, 0));
}

#[test]
fn illegal_discard_leaves_pile_unchanged() {
    let mut pile = up_pile_at_20();
    assert_eq!(pile.discard_card(&Card(11)), Err(GameError::IllegalPlay));
    assert_eq!(pile.len(), 1);
    assert_eq!(pile.peek_top_card(), &Card(20));
    assert_eq!(pile.discard_card(&Card(10)), Ok(()));
    assert_eq!(pile.len(), 2);
    assert_eq!(pile.peek_top_card(), &Card(10));
}

#[test]
fn seeded_piles() {
    let up = DiscardPile::new_up();
    let down = DiscardPile::new_down();
    assert_eq!(up.peek_top_card(), &Card(1));
    assert_eq!(up.direction, Direction::Up);
    assert_eq!(down.peek_top_card(), &Card(100));
    assert_eq!(down.direction, Direction::Down);
    assert_eq!(up.determine_card_direction(&Card(5)), Direction::Up);
    assert_eq!(down.determine_card_direction(&Card(5)), Direction::Down);
    assert!(up.is_card_corresponds_direction(&Card(2)));
    assert!(!down.is_card_corresponds_direction(&Card(100)));
}

#[test]
fn card_from_rank() {
    assert_eq!(Card::from(42u8), Card(42));
}
