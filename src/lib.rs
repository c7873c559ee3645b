//! Rule engine and turn state machine for a cooperative card game in which
//! players try to empty a shared deck and their hands onto four discard piles.

pub mod abs_diff_eq;
pub mod card;
pub mod discard_pile;
pub mod error;
pub mod board;
pub mod deck;
pub mod hand;
pub mod player;
pub mod game;
