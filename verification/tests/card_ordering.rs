use core::cmp::Ordering;
use rummy::card::Card;
use rummy::deck::DeckConfig;
use rummy::suit_rank::{Rank, Suit};

/// Cards have the expected ordering.
#[test]
fn normal_ordering_card() {
    let cfg = DeckConfig::new();

    // cards are ordered by rank, then suit
    let card1 = Card { rank: Rank::Ace, suit: Suit::Clubs };
    let card2 = Card { rank: Rank::Ace, suit: Suit::Diamonds };
    let card3 = Card { rank: Rank::Two, suit: Suit::Clubs };

    assert!(card2.cmp_with(&card1, &cfg) == Ordering::Greater);
    assert!(card3.cmp_with(&card2, &cfg) == Ordering::Greater);
}

/// If the deck config specifies a custom high rank,
/// ordering will decrease circularly from that rank.
///
/// For eg, `high_rank = 3` means `3 > 2 > Ace > King > Queen > ...`
#[test]
fn custom_ordering_card() {
    let cfg = DeckConfig {
        shuffle_seed: None,
        pack_count: 1,
        use_joker: false,
        high_rank: Some(Rank::Three),
        wildcard_rank: None,
    };

    // Rank::Three should be the highest now
    let card1 = Card { rank: Rank::King, suit: Suit::Spades };
    let card2 = Card { rank: Rank::Two, suit: Suit::Spades };
    let card3 = Card { rank: Rank::Three, suit: Suit::Clubs };

    assert!(card2.cmp_with(&card1, &cfg) == Ordering::Greater);
    assert!(card3.cmp_with(&card2, &cfg) == Ordering::Greater);

    // Suit ordering should remain the same
    let card4 = Card { rank: Rank::Three, suit: Suit::Spades };
    assert!(card4.cmp_with(&card1, &cfg) == Ordering::Greater);
}

/// With a custom high rank the wrap goes all the way around: the rank just
/// above the high rank becomes the lowest of all.
#[test]
fn wrapped_low_rank() {
    let cfg = DeckConfig {
        shuffle_seed: None,
        pack_count: 1,
        use_joker: false,
        high_rank: Some(Rank::Two),
        wildcard_rank: None,
    };

    let three = Card { rank: Rank::Three, suit: Suit::Hearts };
    let king = Card { rank: Rank::King, suit: Suit::Hearts };
    let ace = Card { rank: Rank::Ace, suit: Suit::Hearts };
    let two = Card { rank: Rank::Two, suit: Suit::Hearts };

    assert!(three.cmp_with(&king, &cfg) == Ordering::Less);
    assert!(king.cmp_with(&ace, &cfg) == Ordering::Less);
    assert!(ace.cmp_with(&two, &cfg) == Ordering::Less);
}

/// Equal rank and suit compare equal, whatever the configuration.
#[test]
fn equal_cards_compare_equal() {
    let cfg = DeckConfig {
        shuffle_seed: None,
        pack_count: 1,
        use_joker: false,
        high_rank: Some(Rank::Seven),
        wildcard_rank: None,
    };
    let a = Card { rank: Rank::Nine, suit: Suit::Diamonds };
    let b = Card { rank: Rank::Nine, suit: Suit::Diamonds };
    assert!(a.cmp_with(&b, &cfg) == Ordering::Equal);
    assert_eq!(a.data(), (Rank::Nine, Suit::Diamonds));
}
