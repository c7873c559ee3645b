use vstd::prelude::*;

verus! {

/// Represents a single card by its rank.
#[derive(Copy, Clone, Hash, PartialEq, Eq, Debug, Structural)]
pub struct Card(pub u8);

/// The lowest rank; it only seeds the ascending piles.
pub const LOWEST_RANK: u8 = 1;

/// The highest rank; it only seeds the descending piles.
pub const HIGHEST_RANK: u8 = 100;

impl From<u8> for Card {
    fn from(value: u8) -> (r: Self)
        ensures
            r.0 == value,
    {
        Card(value)
    }
}

impl vstd::std_specs::convert::FromSpecImpl<u8> for Card {
    open spec fn obeys_from_spec() -> bool {
        true
    }

    open spec fn from_spec(v: u8) -> Card {
        Card(v)
    }
}

} // verus!
