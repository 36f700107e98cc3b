//! A playing card as a plain (rank, suit) value, and the card ordering that a
//! deck configuration induces.
//!
//! A card does not carry a reference to the deck it came from; every
//! comparison takes the deck's configuration explicitly, so the rank-offset
//! logic is a function of the two cards and the configured high rank alone.

use vstd::prelude::*;
use core::cmp::Ordering;
use crate::suit_rank::{Rank, Suit, rank_val, suit_val, rank_value, suit_value};
use crate::deck::DeckConfig;

verus! {

/// A card: an immutable (rank, suit) pair.
///
/// Two cards are equal iff rank and suit match.
#[derive(Clone, Copy, Debug, PartialEq, Eq, Structural)]
pub struct Card {
    pub rank: Rank,
    pub suit: Suit,
}

/// The rank position that `config`'s high-rank override treats as the top of
/// the ordering: the configured high rank's position, or `King`'s when none is
/// configured or the override names the joker rank.
pub open spec fn high_rank_val(config: DeckConfig) -> int {
    match config.high_rank {
        Some(r) => if r is Joker {
            12
        } else {
            rank_val(r)
        },
        None => 12,
    }
}

/// The ordering key of a rank under `config`: ordinary ranks are offset so
/// that the configured high rank maps to 12, the top of the circular order of
/// the 13 ordinary ranks; the joker rank sits above them all at 13.
pub open spec fn order_key(r: Rank, config: DeckConfig) -> int {
    if r is Joker {
        13
    } else {
        (rank_val(r) + 12 - high_rank_val(config)) % 13
    }
}

/// How `a` compares to `b` under `config`: by rank key first (circular around
/// the configured high rank), by the fixed suit order when the ranks are equal.
pub open spec fn card_cmp(a: Card, b: Card, config: DeckConfig) -> Ordering {
    if a.rank == b.rank {
        if suit_val(a.suit) < suit_val(b.suit) {
            Ordering::Less
        } else if suit_val(a.suit) == suit_val(b.suit) {
            Ordering::Equal
        } else {
            Ordering::Greater
        }
    } else {
        if order_key(a.rank, config) < order_key(b.rank, config) {
            Ordering::Less
        } else if order_key(a.rank, config) == order_key(b.rank, config) {
            Ordering::Equal
        } else {
            Ordering::Greater
        }
    }
}

impl Card {
    /// Gets the card's rank and suit.
    pub fn data(&self) -> (d: (Rank, Suit))
        ensures
            d.0 == self.rank,
            d.1 == self.suit,
    {
        (self.rank, self.suit)
    }

    /// Compares two cards under a deck configuration: by rank, offset
    /// circularly around the configured high rank, then by suit.
    pub fn cmp_with(&self, other: &Card, config: &DeckConfig) -> (o: Ordering)
        ensures
            o == card_cmp(*self, *other, *config),
    {
        if self.rank == other.rank {
            let sa = suit_value(self.suit);
            let sb = suit_value(other.suit);
            if sa < sb {
                Ordering::Less
            } else if sa == sb {
                Ordering::Equal
            } else {
                Ordering::Greater
            }
        } else {
            let ka = order_key_value(self.rank, config);
            let kb = order_key_value(other.rank, config);
            if ka < kb {
                Ordering::Less
            } else if ka == kb {
                Ordering::Equal
            } else {
                Ordering::Greater
            }
        }
    }
}

/// No two ordinary ranks share a position.
proof fn lemma_rank_val_injective(a: Rank, b: Rank)
    requires
        rank_val(a) == rank_val(b),
    ensures
        a == b,
{
}

/// Under a configuration without a high-rank override, cards of one suit order
/// by plain rank position: `Ace < Two < ... < King`.
pub proof fn lemma_default_rank_order(a: Card, b: Card, config: DeckConfig)
    requires
        config.high_rank is None,
        a.suit == b.suit,
        !(a.rank is Joker),
        !(b.rank is Joker),
        rank_val(a.rank) < rank_val(b.rank),
    ensures
        card_cmp(a, b, config) is Less,
{
    assert(order_key(a.rank, config) == rank_val(a.rank)) by {
        assert(0 <= rank_val(a.rank) < 13);
    }
    assert(order_key(b.rank, config) == rank_val(b.rank)) by {
        assert(0 <= rank_val(b.rank) < 13);
    }
}

/// Cards of equal rank order by the fixed suit order, whatever the
/// configuration.
pub proof fn lemma_equal_rank_suit_order(a: Card, b: Card, config: DeckConfig)
    requires
        a.rank == b.rank,
        suit_val(a.suit) < suit_val(b.suit),
    ensures
        card_cmp(a, b, config) is Less,
{
}

/// A configured high rank is the top of the circular order: its key is 12, and
/// every other ordinary rank sits strictly below it.
pub proof fn lemma_high_rank_is_top(config: DeckConfig, h: Rank, r: Rank)
    requires
        config.high_rank == Some(h),
        !(h is Joker),
        !(r is Joker),
        r != h,
    ensures
        order_key(h, config) == 12,
        order_key(r, config) < 12,
{
    assert(order_key(h, config) == 12) by {
        assert((rank_val(h) + 12 - rank_val(h)) % 13 == 12);
    }
    assert(0 <= order_key(r, config) < 13);
    if order_key(r, config) == 12 {
        let d = rank_val(r) + 12 - rank_val(h);
        assert(0 <= d <= 24);
        assert(d % 13 == 12 ==> d == 12 || d == 25);
        assert(rank_val(r) == rank_val(h));
        lemma_rank_val_injective(r, h);
    }
}

/// With `high_rank = Three`, the order wraps: `Two > Ace > King`, and `Three`
/// compares greater than every other rank of its suit.
pub proof fn lemma_high_rank_three_order(a: Card, b: Card, config: DeckConfig)
    requires
        config.high_rank == Some(Rank::Three),
        a.suit == b.suit,
    ensures
        a.rank is King && b.rank is Ace ==> card_cmp(a, b, config) is Less,
        a.rank is Ace && b.rank is Two ==> card_cmp(a, b, config) is Less,
        !(a.rank is Three) && !(a.rank is Joker) && b.rank is Three ==> card_cmp(
            a,
            b,
            config,
        ) is Less,
{
    assert(order_key(Rank::King, config) == 9);
    assert(order_key(Rank::Ace, config) == 10);
    assert(order_key(Rank::Two, config) == 11);
    assert(order_key(Rank::Three, config) == 12);
    if !(a.rank is Three) && !(a.rank is Joker) && b.rank is Three {
        lemma_high_rank_is_top(config, Rank::Three, a.rank);
    }
}

/// Executable twin of [`order_key`].
pub fn order_key_value(r: Rank, config: &DeckConfig) -> (k: u8)
    ensures
        k as int == order_key(r, *config),
{
    if matches!(r, Rank::Joker) {
        13
    } else {
        let high: u8 = match config.high_rank {
            Some(h) => if matches!(h, Rank::Joker) {
                12
            } else {
                rank_value(h)
            },
            None => 12,
        };
        (rank_value(r) + 12 - high) % 13
    }
}

} // verus!
