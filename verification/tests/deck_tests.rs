use core::cmp::Ordering;
use rummy::deck::{Deck, DeckConfig};
use rummy::suit_rank::{Rank, Suit};

/// Normal deck must be instantiated correctly.
#[test]
fn tests_normal_deck() {
    let mut cfg = DeckConfig {
        shuffle_seed: None,
        pack_count: 1,
        use_joker: false,
        high_rank: None,
        wildcard_rank: None,
    };

    let default_cfg = DeckConfig::new();
    assert_eq!(cfg, default_cfg);

    let deck = Deck::new(cfg.clone());
    assert_eq!(deck.stock().len(), 52);
    assert_eq!(deck.discard_pile().len(), 0);

    // `use_joker` should add 2 jokers to the deck
    cfg.use_joker = true;
    let joker_deck = Deck::new(cfg.clone());
    assert_eq!(joker_deck.stock().len(), 54);

    // `pack_count = 0` should be set to 1 during Deck::new()
    cfg.pack_count = 0;
    let zero_pack_deck = Deck::new(cfg.clone());
    assert_eq!(zero_pack_deck.config().pack_count, 1);
    assert_eq!(zero_pack_deck.stock().len(), 54);
}

/// Two pack deck must be instantiated correctly.
#[test]
fn tests_two_pack_deck() {
    let mut cfg = DeckConfig {
        shuffle_seed: None,
        pack_count: 2,
        use_joker: false,
        high_rank: None,
        wildcard_rank: None,
    };

    let deck = Deck::new(cfg.clone());
    assert_eq!(deck.stock().len(), 104);
    assert_eq!(deck.discard_pile().len(), 0);

    cfg.use_joker = true;
    let joker_deck = Deck::new(cfg.clone());
    assert_eq!(joker_deck.stock().len(), 108);
}

/// If the shuffle seed is `Some(0)`, the stock shouldn't be shuffled;
/// ie, always in increasing order.
#[test]
fn tests_no_shuffle_deck() {
    let cfg = DeckConfig {
        shuffle_seed: Some(0),
        pack_count: 1,
        use_joker: false,
        high_rank: None,
        wildcard_rank: None,
    };

    let deck = Deck::new(cfg.clone());
    let stock = deck.stock();
    let mut i = 1;
    while i < stock.len() {
        assert!(stock[i - 1].cmp_with(&stock[i], deck.config()) != Ordering::Greater);
        i += 1;
    }
}

/// Draw and discard must work as expected.
#[test]
fn tests_draw_and_discard_deck() {
    let mut deck = Deck::new(DeckConfig::new());

    // Drawing 1 card
    let mut card = deck.draw(1).unwrap();
    deck.add_to_discard_pile(&mut card);
    assert_eq!(deck.stock().len(), 51);
    assert_eq!(deck.discard_pile().len(), 1);

    // Drawing several cards
    let mut cards = deck.draw(51).unwrap();
    deck.add_to_discard_pile(&mut cards);
    assert_eq!(deck.stock().len(), 0);
    assert_eq!(deck.discard_pile().len(), 52);

    // Drawing from an empty stock
    assert!(deck.draw(1).is_err());

    // `shuffle_discarded` replenishes the stock but shuffles it
    deck.shuffle_discarded();
    assert_eq!(deck.stock().len(), 52);
    assert_eq!(deck.discard_pile().len(), 0);

    // `turnover_discarded` replenishes the stock and preserves order (as no shuffle occurs);
    // we can test by creating an unshuffled deck, calling `turnover_discarded` and checking the order
    let mut unshuffled_deck = Deck::new(DeckConfig {
        shuffle_seed: Some(0),
        pack_count: 1,
        use_joker: false,
        high_rank: None,
        wildcard_rank: None,
    });
    let mut cards = unshuffled_deck.draw(52).unwrap();
    unshuffled_deck.add_to_discard_pile(&mut cards);
    unshuffled_deck.turnover_discarded();
    println!("{:?}", unshuffled_deck.stock());
    assert_eq!(unshuffled_deck.stock().len(), 52);
    assert_eq!(unshuffled_deck.discard_pile().len(), 0);
    let stock = unshuffled_deck.stock();
    let mut i = 1;
    while i < stock.len() {
        assert!(
            stock[i - 1].cmp_with(&stock[i], unshuffled_deck.config()) != Ordering::Less
        );
        i += 1;
    }
}

/// Normal deck must be instantiated correctly.
#[test]
fn deck_normal_deck() {
    let mut cfg = DeckConfig {
        shuffle_seed: None,
        pack_count: 1,
        use_joker: false,
        high_rank: None,
        wildcard_rank: None,
    };

    let default_cfg = DeckConfig::new();
    assert_eq!(cfg, default_cfg);

    let deck = Deck::new(cfg.clone());
    assert_eq!(deck.stock().len(), 52);
    assert_eq!(deck.discard_pile().len(), 0);

    cfg.use_joker = true;
    let joker_deck = Deck::new(cfg.clone());
    assert_eq!(joker_deck.stock().len(), 54);

    // `pack_count = 0` should be set to 1 during Deck::new()
    cfg.pack_count = 0;
    let zero_pack_deck = Deck::new(cfg.clone());
    assert_eq!(zero_pack_deck.config().pack_count, 1);
    assert_eq!(zero_pack_deck.stock().len(), 54);
}

/// Two pack deck must be instantiated correctly.
#[test]
fn deck_two_pack_deck() {
    let mut cfg = DeckConfig {
        shuffle_seed: None,
        pack_count: 2,
        use_joker: false,
        high_rank: None,
        wildcard_rank: None,
    };

    let deck = Deck::new(cfg.clone());
    assert_eq!(deck.stock().len(), 104);
    assert_eq!(deck.discard_pile().len(), 0);

    cfg.use_joker = true;
    let joker_deck = Deck::new(cfg.clone());
    assert_eq!(joker_deck.stock().len(), 108);
}

/// If the shuffle seed is `Some(0)`, the stock shouldn't be shuffled;
/// ie, always in increasing order.
#[test]
fn deck_no_shuffle_deck() {
    let cfg = DeckConfig {
        shuffle_seed: Some(0),
        pack_count: 1,
        use_joker: false,
        high_rank: None,
        wildcard_rank: None,
    };

    let deck = Deck::new(cfg.clone());
    let stock = deck.stock();
    let mut i = 1;
    while i < stock.len() {
        assert!(stock[i - 1].cmp_with(&stock[i], deck.config()) != Ordering::Greater);
        i += 1;
    }
}

/// Draw and discard must work as expected.
#[test]
fn deck_draw_and_discard_deck() {
    let mut deck = Deck::new(DeckConfig::new());

    let mut card = deck.draw(1).unwrap();
    deck.add_to_discard_pile(&mut card);
    assert_eq!(deck.stock().len(), 51);
    assert_eq!(deck.discard_pile().len(), 1);

    let mut cards = deck.draw(51).unwrap();
    deck.add_to_discard_pile(&mut cards);
    assert_eq!(deck.stock().len(), 0);
    assert_eq!(deck.discard_pile().len(), 52);

    assert!(deck.draw(1).is_err());

    deck.shuffle_discarded();
    assert_eq!(deck.stock().len(), 52);
    assert_eq!(deck.discard_pile().len(), 0);

    let mut unshuffled_deck = Deck::new(DeckConfig {
        shuffle_seed: Some(0),
        pack_count: 1,
        use_joker: false,
        high_rank: None,
        wildcard_rank: None,
    });
    let mut cards = unshuffled_deck.draw(52).unwrap();
    unshuffled_deck.add_to_discard_pile(&mut cards);
    unshuffled_deck.turnover_discarded();
    println!("{:?}", unshuffled_deck.stock());
    assert_eq!(unshuffled_deck.stock().len(), 52);
    assert_eq!(unshuffled_deck.discard_pile().len(), 0);
    let stock = unshuffled_deck.stock();
    let mut i = 1;
    while i < stock.len() {
        assert!(
            stock[i - 1].cmp_with(&stock[i], unshuffled_deck.config()) != Ordering::Less
        );
        i += 1;
    }
}

/// A fixed seed gives a reproducible deck: two decks built from the same
/// seeded configuration hold the same cards in the same order.
#[test]
fn seeded_deck_is_deterministic() {
    let cfg = DeckConfig {
        shuffle_seed: Some(12345),
        pack_count: 2,
        use_joker: true,
        high_rank: None,
        wildcard_rank: None,
    };
    let deck1 = Deck::new(cfg.clone());
    let deck2 = Deck::new(cfg.clone());
    assert_eq!(deck1.stock().len(), deck2.stock().len());
    let mut i = 0;
    while i < deck1.stock().len() {
        assert_eq!(deck1.stock()[i].data(), deck2.stock()[i].data());
        i += 1;
    }
    // and a different seed rearranges the cards somewhere
    let other = Deck::new(DeckConfig { shuffle_seed: Some(54321), ..cfg });
    let mut same = true;
    let mut i = 0;
    while i < deck1.stock().len() {
        if deck1.stock()[i].data() != other.stock()[i].data() {
            same = false;
        }
        i += 1;
    }
    assert!(!same);
}

/// Replenishing by shuffle keeps exactly the discarded cards: every card of
/// the old piles is in the new stock as often as before.
#[test]
fn shuffle_discarded_conserves_cards() {
    let mut deck = Deck::new(DeckConfig {
        shuffle_seed: Some(0),
        pack_count: 1,
        use_joker: false,
        high_rank: None,
        wildcard_rank: None,
    });
    let before: Vec<(Rank, Suit)> = deck.stock().iter().map(|c| c.data()).collect();
    let mut cards = deck.draw(52).unwrap();
    deck.add_to_discard_pile(&mut cards);
    deck.shuffle_discarded();
    assert_eq!(deck.stock().len(), 52);
    for want in &before {
        let mut count = 0;
        for c in deck.stock() {
            if c.data() == *want {
                count += 1;
            }
        }
        assert_eq!(count, 1);
    }
}

/// Drawing a named card removes exactly that card; a card not in the stock is
/// reported missing.
#[test]
fn draw_specific_card() {
    let mut deck = Deck::new(DeckConfig {
        shuffle_seed: Some(7),
        pack_count: 1,
        use_joker: false,
        high_rank: None,
        wildcard_rank: None,
    });
    let card = deck.draw_specific(Rank::Queen, Suit::Hearts).unwrap();
    assert_eq!(card.data(), (Rank::Queen, Suit::Hearts));
    assert_eq!(deck.stock().len(), 51);
    assert!(deck.draw_specific(Rank::Queen, Suit::Hearts).is_err());
    assert!(deck.draw_specific(Rank::Joker, Suit::Joker).is_err());
}

/// Peeking shows the most recently discarded card without removing it, and an
/// empty pile cannot be drawn from.
#[test]
fn peek_and_draw_discard_pile() {
    let mut deck = Deck::new(DeckConfig::new());
    assert!(deck.peek_discard_pile().is_none());
    assert!(deck.draw_discard_pile(None).is_err());

    let mut cards = deck.draw(3).unwrap();
    let top = cards[2].data();
    deck.add_to_discard_pile(&mut cards);
    assert_eq!(deck.peek_discard_pile(), Some(top));
    assert_eq!(deck.discard_pile().len(), 3);

    assert!(deck.draw_discard_pile(Some(4)).is_err());
    let got = deck.draw_discard_pile(Some(2)).unwrap();
    assert_eq!(got.len(), 2);
    assert_eq!(got[1].data(), top);
    let rest = deck.draw_discard_pile(None).unwrap();
    assert_eq!(rest.len(), 1);
    assert!(deck.peek_discard_pile().is_none());
}
