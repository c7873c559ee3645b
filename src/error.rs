use vstd::prelude::*;

verus! {

/// The reasons for which a move of the game is refused.
#[derive(Debug, Clone, Copy, PartialEq, Eq, Structural)]
pub enum GameError {
    /// The card does not fit the chosen discard pile.
    IllegalPlay,
    /// The current player does not hold the card to be discarded. A discard
    /// moves the card out of the hand onto the pile; accepting a card nobody
    /// holds would put a second copy of it into play and break the rule that
    /// every card lies in exactly one place.
    CardNotInHand,
    /// A move was attempted while the game is not being played.
    NotRunning,
    /// The game was started a second time.
    AlreadyRunning,
    /// The turn was ended before enough cards were discarded.
    ActionRequired,
    /// A card was drawn from an empty deck.
    EmptyDeck,
}

impl GameError {
    /// A message that describes the error to a player.
    pub fn message(&self) -> (r: &'static str)
        ensures
            *self == GameError::IllegalPlay ==> r@ == "Can't play that card"@,
            *self == GameError::CardNotInHand ==> r@ == "The current player does not hold that card"@,
            *self == GameError::NotRunning ==> r@ == "Game is not running"@,
            *self == GameError::AlreadyRunning ==> r@ == "Can't start an already running game"@,
            *self == GameError::ActionRequired ==> r@
                == "An action is required before completing the turn"@,
            *self == GameError::EmptyDeck ==> r@ == "Deck is empty"@,
    {
        match self {
            GameError::IllegalPlay => "Can't play that card",
            GameError::CardNotInHand => "The current player does not hold that card",
            GameError::NotRunning => "Game is not running",
            GameError::AlreadyRunning => "Can't start an already running game",
            GameError::ActionRequired => "An action is required before completing the turn",
            GameError::EmptyDeck => "Deck is empty",
        }
    }
}

} // verus!
