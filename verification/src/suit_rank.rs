//! Poker suits and ranks, and the circular rank ordering that a deck's
//! configured high rank induces.

use vstd::prelude::*;

verus! {

/// Poker suits, in their fixed comparison order; `Joker` is the suit carried
/// by joker cards only.
#[derive(Clone, Copy, Debug, PartialEq, Eq, Structural)]
pub enum Suit {
    Clubs,
    Diamonds,
    Hearts,
    Spades,
    Joker,
}

/// Poker ranks; `Joker` is the rank carried by joker cards only.
#[derive(Clone, Copy, Debug, PartialEq, Eq, Structural)]
pub enum Rank {
    Ace,
    Two,
    Three,
    Four,
    Five,
    Six,
    Seven,
    Eight,
    Nine,
    Ten,
    Jack,
    Queen,
    King,
    Joker,
}

/// Numeric position of a rank: `Ace` is 0 up to `King` at 12; the joker rank
/// sits above every ordinary rank at 13.
pub open spec fn rank_val(r: Rank) -> int {
    match r {
        Rank::Ace => 0,
        Rank::Two => 1,
        Rank::Three => 2,
        Rank::Four => 3,
        Rank::Five => 4,
        Rank::Six => 5,
        Rank::Seven => 6,
        Rank::Eight => 7,
        Rank::Nine => 8,
        Rank::Ten => 9,
        Rank::Jack => 10,
        Rank::Queen => 11,
        Rank::King => 12,
        Rank::Joker => 13,
    }
}

/// Numeric position of a suit in the fixed suit order.
pub open spec fn suit_val(s: Suit) -> int {
    match s {
        Suit::Clubs => 0,
        Suit::Diamonds => 1,
        Suit::Hearts => 2,
        Suit::Spades => 3,
        Suit::Joker => 4,
    }
}

/// Executable twin of [`rank_val`].
pub fn rank_value(r: Rank) -> (v: u8)
    ensures
        v as int == rank_val(r),
{
    match r {
        Rank::Ace => 0,
        Rank::Two => 1,
        Rank::Three => 2,
        Rank::Four => 3,
        Rank::Five => 4,
        Rank::Six => 5,
        Rank::Seven => 6,
        Rank::Eight => 7,
        Rank::Nine => 8,
        Rank::Ten => 9,
        Rank::Jack => 10,
        Rank::Queen => 11,
        Rank::King => 12,
        Rank::Joker => 13,
    }
}

/// Executable twin of [`suit_val`].
pub fn suit_value(s: Suit) -> (v: u8)
    ensures
        v as int == suit_val(s),
{
    match s {
        Suit::Clubs => 0,
        Suit::Diamonds => 1,
        Suit::Hearts => 2,
        Suit::Spades => 3,
        Suit::Joker => 4,
    }
}

/// The ordinary (non-joker) rank at position `v`; positions 0 through 12.
pub open spec fn rank_of_val(v: int) -> Rank {
    if v == 0 {
        Rank::Ace
    } else if v == 1 {
        Rank::Two
    } else if v == 2 {
        Rank::Three
    } else if v == 3 {
        Rank::Four
    } else if v == 4 {
        Rank::Five
    } else if v == 5 {
        Rank::Six
    } else if v == 6 {
        Rank::Seven
    } else if v == 7 {
        Rank::Eight
    } else if v == 8 {
        Rank::Nine
    } else if v == 9 {
        Rank::Ten
    } else if v == 10 {
        Rank::Jack
    } else if v == 11 {
        Rank::Queen
    } else {
        Rank::King
    }
}

/// The suit at position `v` of the fixed suit order; positions 0 through 3.
pub open spec fn suit_of_val(v: int) -> Suit {
    if v == 0 {
        Suit::Clubs
    } else if v == 1 {
        Suit::Diamonds
    } else if v == 2 {
        Suit::Hearts
    } else {
        Suit::Spades
    }
}

/// Executable twin of [`rank_of_val`].
pub fn rank_from_value(v: u8) -> (r: Rank)
    requires
        v < 13,
    ensures
        r == rank_of_val(v as int),
        rank_val(r) == v as int,
{
    if v == 0 {
        Rank::Ace
    } else if v == 1 {
        Rank::Two
    } else if v == 2 {
        Rank::Three
    } else if v == 3 {
        Rank::Four
    } else if v == 4 {
        Rank::Five
    } else if v == 5 {
        Rank::Six
    } else if v == 6 {
        Rank::Seven
    } else if v == 7 {
        Rank::Eight
    } else if v == 8 {
        Rank::Nine
    } else if v == 9 {
        Rank::Ten
    } else if v == 10 {
        Rank::Jack
    } else if v == 11 {
        Rank::Queen
    } else {
        Rank::King
    }
}

/// Executable twin of [`suit_of_val`].
pub fn suit_from_value(v: u8) -> (s: Suit)
    requires
        v < 4,
    ensures
        s == suit_of_val(v as int),
        suit_val(s) == v as int,
{
    if v == 0 {
        Suit::Clubs
    } else if v == 1 {
        Suit::Diamonds
    } else if v == 2 {
        Suit::Hearts
    } else {
        Suit::Spades
    }
}

} // verus!
