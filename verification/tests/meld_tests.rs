use rummy::card::Card;
use rummy::deck::DeckConfig;
use rummy::error::MeldError;
use rummy::meld::{Meld, Meldable, Run, SetMeld};
use rummy::suit_rank::{Rank, Suit};

/// Test the card permutations that would not form a run.
#[test]
fn tests_form_invalid_run() {
    let cfg = DeckConfig::new();

    // less than 3 cards would not be valid regardless
    let mut cards = vec![
        Card { rank: Rank::Ace, suit: Suit::Clubs },
        Card { rank: Rank::Two, suit: Suit::Clubs },
    ];
    let mut indices = vec![0, 1];
    assert!(Run::new(&mut cards, &indices, &cfg).is_err());

    // valid run of ranks but different suits would not be valid
    cards.push(Card { rank: Rank::Three, suit: Suit::Spades });
    indices.push(2);
    assert!(Run::new(&mut cards, &indices, &cfg).is_err());

    // valid run but without the proper indices would not be valid
    cards.push(Card { rank: Rank::Three, suit: Suit::Clubs });
    assert!(Run::new(&mut cards, &indices, &cfg).is_err());

    // if we set a `high_rank` in the deck config, the validity of a run would follow it
    let mut high_rank_cfg = DeckConfig::new();
    high_rank_cfg.high_rank = Some(Rank::Two);
    let mut cards = vec![
        Card { rank: Rank::King, suit: Suit::Clubs },
        Card { rank: Rank::Ace, suit: Suit::Clubs },
        Card { rank: Rank::Two, suit: Suit::Clubs },
        Card { rank: Rank::Three, suit: Suit::Clubs },
    ];
    let indices = vec![0, 1, 2, 3];
    // Two now highest, so Three is no longer consecutive
    assert!(Run::new(&mut cards, &indices, &high_rank_cfg).is_err());
}

/// Test the card permutations that would form a run.
#[test]
fn tests_form_valid_run() {
    let cfg = DeckConfig::new();
    let mut cards = vec![
        Card { rank: Rank::Ace, suit: Suit::Clubs },
        Card { rank: Rank::Two, suit: Suit::Clubs },
        Card { rank: Rank::Three, suit: Suit::Clubs },
    ];
    let mut indices = vec![0, 1, 2];
    assert!(Run::new(&mut cards.clone(), &indices, &cfg).is_ok());

    // valid even if the indices are in wrong order
    indices = vec![2, 0, 1];
    assert!(Run::new(&mut cards, &indices, &cfg).is_ok());

    // if we use a custom `high_rank`, we can have different ordering for runs
    let mut high_rank_cfg = DeckConfig::new();
    high_rank_cfg.high_rank = Some(Rank::Two);
    let mut cards = vec![
        Card { rank: Rank::King, suit: Suit::Clubs },
        Card { rank: Rank::Ace, suit: Suit::Clubs },
        Card { rank: Rank::Two, suit: Suit::Clubs },
    ];
    let indices = vec![0, 1, 2];
    match Run::new(&mut cards, &indices, &high_rank_cfg) {
        Err(err) => panic!("{:?}", err),
        Ok(_) => {},
    }
}

/// Test the card permutations that would (not) form a set.
#[test]
fn form_set() {
    let cfg = DeckConfig::new();

    // three cards of one rank form a set and leave the hand
    let mut hand = vec![
        Card { rank: Rank::Six, suit: Suit::Clubs },
        Card { rank: Rank::Ace, suit: Suit::Hearts },
        Card { rank: Rank::Six, suit: Suit::Diamonds },
        Card { rank: Rank::Six, suit: Suit::Spades },
    ];
    let indices = vec![0, 2, 3];
    let set = SetMeld::new(&mut hand, &indices, &cfg).unwrap();
    assert_eq!(set.rank(), Rank::Six);
    assert_eq!(set.cards().len(), 3);
    assert_eq!(hand.len(), 1);
    assert_eq!(hand[0].data(), (Rank::Ace, Suit::Hearts));

    // mixed ranks without a wildcard are rejected, and the hand is untouched
    let mut hand = vec![
        Card { rank: Rank::Six, suit: Suit::Clubs },
        Card { rank: Rank::Seven, suit: Suit::Diamonds },
        Card { rank: Rank::Six, suit: Suit::Spades },
    ];
    let result = SetMeld::new(&mut hand, &vec![0, 1, 2], &cfg);
    assert!(matches!(result, Err(MeldError::NotASet)));
    assert_eq!(hand.len(), 3);

    // fewer than 3 cards always fail
    let mut hand = vec![
        Card { rank: Rank::Six, suit: Suit::Clubs },
        Card { rank: Rank::Six, suit: Suit::Diamonds },
    ];
    let result = SetMeld::new(&mut hand, &vec![0, 1], &cfg);
    assert!(matches!(result, Err(MeldError::TooFewCards)));

    // a set of the wildcard rank alone is rejected
    let mut wild_cfg = DeckConfig::new();
    wild_cfg.wildcard_rank = Some(Rank::Two);
    let mut hand = vec![
        Card { rank: Rank::Two, suit: Suit::Clubs },
        Card { rank: Rank::Two, suit: Suit::Diamonds },
        Card { rank: Rank::Two, suit: Suit::Spades },
    ];
    let result = SetMeld::new(&mut hand, &vec![0, 1, 2], &wild_cfg);
    assert!(matches!(result, Err(MeldError::WildcardsOnly)));
    assert_eq!(hand.len(), 3);

    // but wildcards may fill a set anchored by a real rank
    let mut hand = vec![
        Card { rank: Rank::Nine, suit: Suit::Clubs },
        Card { rank: Rank::Two, suit: Suit::Diamonds },
        Card { rank: Rank::Nine, suit: Suit::Spades },
    ];
    let set = SetMeld::new(&mut hand, &vec![0, 1, 2], &wild_cfg).unwrap();
    assert_eq!(set.rank(), Rank::Nine);
    assert!(hand.is_empty());
}

/// Directly form a meld with the `Meld` enum.
#[test]
fn form_meld() {
    let cfg = DeckConfig::new();

    // a set is tried first
    let mut hand = vec![
        Card { rank: Rank::Four, suit: Suit::Clubs },
        Card { rank: Rank::Four, suit: Suit::Diamonds },
        Card { rank: Rank::Four, suit: Suit::Spades },
    ];
    let meld = Meld::new(&mut hand, &vec![0, 1, 2], &cfg).unwrap();
    assert!(matches!(meld, Meld::SetMeld(_)));
    assert!(hand.is_empty());

    // a run is tried second
    let mut hand = vec![
        Card { rank: Rank::Nine, suit: Suit::Hearts },
        Card { rank: Rank::Ten, suit: Suit::Hearts },
        Card { rank: Rank::Jack, suit: Suit::Hearts },
    ];
    let meld = Meld::new(&mut hand, &vec![0, 1, 2], &cfg).unwrap();
    assert!(matches!(meld, Meld::RunMeld(_)));
    assert!(hand.is_empty());

    // neither shape: rejected, hand untouched
    let mut hand = vec![
        Card { rank: Rank::Nine, suit: Suit::Hearts },
        Card { rank: Rank::Ten, suit: Suit::Hearts },
        Card { rank: Rank::Queen, suit: Suit::Spades },
    ];
    assert!(Meld::new(&mut hand, &vec![0, 1, 2], &cfg).is_err());
    assert_eq!(hand.len(), 3);
}

/// Test the ability to layoff to a run.
#[test]
fn tests_layoff_run() {
    let cfg = DeckConfig::new();
    let mut hand = vec![
        Card { rank: Rank::Five, suit: Suit::Clubs },
        Card { rank: Rank::Six, suit: Suit::Clubs },
        Card { rank: Rank::Seven, suit: Suit::Clubs },
        Card { rank: Rank::Eight, suit: Suit::Clubs },
        Card { rank: Rank::Eight, suit: Suit::Spades },
    ];
    let mut run = Run::new(&mut hand, &vec![0, 1, 2], &cfg).unwrap();
    assert_eq!(hand.len(), 2);

    // one above the top fits
    assert!(run.layoff_card(&mut hand, 0, &cfg).is_ok());
    assert_eq!(run.cards().len(), 4);
    assert_eq!(hand.len(), 1);

    // the wrong suit never fits
    let result = run.layoff_card(&mut hand, 0, &cfg);
    assert!(matches!(result, Err(MeldError::CannotLayoff)));
    assert_eq!(hand.len(), 1);
}

/// Test the ability to layoff to a set.
#[test]
fn layoff_set() {
    let cfg = DeckConfig::new();
    let mut hand = vec![
        Card { rank: Rank::Queen, suit: Suit::Clubs },
        Card { rank: Rank::Queen, suit: Suit::Diamonds },
        Card { rank: Rank::Queen, suit: Suit::Hearts },
        Card { rank: Rank::Queen, suit: Suit::Spades },
        Card { rank: Rank::King, suit: Suit::Spades },
    ];
    let mut set = SetMeld::new(&mut hand, &vec![0, 1, 2], &cfg).unwrap();
    assert_eq!(hand.len(), 2);

    // the fourth queen fits
    assert!(set.layoff_card(&mut hand, 0, &cfg).is_ok());
    assert_eq!(set.cards().len(), 4);
    assert_eq!(hand.len(), 1);

    // a king does not
    let result = set.layoff_card(&mut hand, 0, &cfg);
    assert!(matches!(result, Err(MeldError::CannotLayoff)));
    assert_eq!(hand.len(), 1);

    // neither does an index past the hand
    let result = set.layoff_card(&mut hand, 5, &cfg);
    assert!(matches!(result, Err(MeldError::IndexOutOfBounds)));
}

/// Test the ability to layoff through the `Meld` enum.
#[test]
fn layoff_meld() {
    let mut cfg = DeckConfig::new();
    cfg.use_joker = true;

    let mut hand = vec![
        Card { rank: Rank::Two, suit: Suit::Hearts },
        Card { rank: Rank::Three, suit: Suit::Hearts },
        Card { rank: Rank::Four, suit: Suit::Hearts },
        Card { rank: Rank::Joker, suit: Suit::Joker },
        Card { rank: Rank::Ace, suit: Suit::Hearts },
    ];
    let mut meld = Meld::new(&mut hand, &vec![0, 1, 2], &cfg).unwrap();
    assert!(matches!(meld, Meld::RunMeld(_)));

    // a joker is always welcome
    assert!(meld.layoff_card(&mut hand, 0, &cfg).is_ok());
    // one below the bottom card fits too
    assert!(meld.layoff_card(&mut hand, 0, &cfg).is_ok());
    assert!(hand.is_empty());

    if let Meld::RunMeld(run) = &meld {
        assert_eq!(run.cards().len(), 5);
        assert_eq!(run.cards()[0].data(), (Rank::Ace, Suit::Hearts));
    } else {
        panic!("expected a run");
    }
}

/// Test the card permutations that would not form a run.
#[test]
fn set_form_invalid_run() {
    let cfg = DeckConfig::new();

    let mut cards = vec![
        Card { rank: Rank::Ace, suit: Suit::Clubs },
        Card { rank: Rank::Two, suit: Suit::Clubs },
    ];
    let mut indices = vec![0, 1];
    assert!(Run::new(&mut cards, &indices, &cfg).is_err());

    cards.push(Card { rank: Rank::Three, suit: Suit::Spades });
    indices.push(2);
    assert!(Run::new(&mut cards, &indices, &cfg).is_err());

    cards.push(Card { rank: Rank::Three, suit: Suit::Clubs });
    assert!(Run::new(&mut cards, &indices, &cfg).is_err());

    let mut high_rank_cfg = DeckConfig::new();
    high_rank_cfg.high_rank = Some(Rank::Two);
    let mut cards = vec![
        Card { rank: Rank::King, suit: Suit::Clubs },
        Card { rank: Rank::Ace, suit: Suit::Clubs },
        Card { rank: Rank::Two, suit: Suit::Clubs },
        Card { rank: Rank::Three, suit: Suit::Clubs },
    ];
    let indices = vec![0, 1, 2, 3];
    assert!(Run::new(&mut cards, &indices, &high_rank_cfg).is_err());
}

/// Test the card permutations that would form a run.
#[test]
fn set_form_valid_run() {
    let cfg = DeckConfig::new();
    let mut cards = vec![
        Card { rank: Rank::Ace, suit: Suit::Clubs },
        Card { rank: Rank::Two, suit: Suit::Clubs },
        Card { rank: Rank::Three, suit: Suit::Clubs },
    ];
    let mut indices = vec![0, 1, 2];
    assert!(Run::new(&mut cards.clone(), &indices, &cfg).is_ok());

    indices = vec![2, 0, 1];
    assert!(Run::new(&mut cards, &indices, &cfg).is_ok());

    let mut high_rank_cfg = DeckConfig::new();
    high_rank_cfg.high_rank = Some(Rank::Two);
    let mut cards = vec![
        Card { rank: Rank::King, suit: Suit::Clubs },
        Card { rank: Rank::Ace, suit: Suit::Clubs },
        Card { rank: Rank::Two, suit: Suit::Clubs },
    ];
    let indices = vec![0, 1, 2];
    match Run::new(&mut cards, &indices, &high_rank_cfg) {
        Err(err) => panic!("{:?}", err),
        Ok(_) => {},
    }
}

/// Test the ability to layoff to a run at its bottom end.
#[test]
fn set_layoff_run() {
    let cfg = DeckConfig::new();
    let mut hand = vec![
        Card { rank: Rank::Five, suit: Suit::Diamonds },
        Card { rank: Rank::Six, suit: Suit::Diamonds },
        Card { rank: Rank::Seven, suit: Suit::Diamonds },
        Card { rank: Rank::Four, suit: Suit::Diamonds },
    ];
    let mut run = Run::new(&mut hand, &vec![0, 1, 2], &cfg).unwrap();

    // one below the bottom becomes the new bottom card
    assert!(run.layoff_card(&mut hand, 0, &cfg).is_ok());
    assert_eq!(run.cards().len(), 4);
    assert_eq!(run.cards()[0].data(), (Rank::Four, Suit::Diamonds));
    assert!(hand.is_empty());
}

/// A run with wildcards filling its gaps: the wildcard stands exactly where a
/// rank is missing, and spare wildcards extend the top.
#[test]
fn run_with_wildcards() {
    let mut cfg = DeckConfig::new();
    cfg.wildcard_rank = Some(Rank::Two);

    // Five, gap, Seven of spades: the Two fills the gap
    let mut hand = vec![
        Card { rank: Rank::Five, suit: Suit::Spades },
        Card { rank: Rank::Two, suit: Suit::Hearts },
        Card { rank: Rank::Seven, suit: Suit::Spades },
    ];
    let run = Run::new(&mut hand, &vec![0, 1, 2], &cfg).unwrap();
    assert_eq!(run.cards().len(), 3);
    assert_eq!(run.cards()[0].data(), (Rank::Five, Suit::Spades));
    assert_eq!(run.cards()[1].data(), (Rank::Two, Suit::Hearts));
    assert_eq!(run.cards()[2].data(), (Rank::Seven, Suit::Spades));

    // two gaps but only one wildcard: rejected, hand untouched
    let mut hand = vec![
        Card { rank: Rank::Five, suit: Suit::Spades },
        Card { rank: Rank::Two, suit: Suit::Hearts },
        Card { rank: Rank::Nine, suit: Suit::Spades },
    ];
    let result = Run::new(&mut hand, &vec![0, 1, 2], &cfg);
    assert!(matches!(result, Err(MeldError::NotARun)));
    assert_eq!(hand.len(), 3);
}

/// Repeated indices never form a meld: a card cannot be used twice.
#[test]
fn repeated_indices_rejected() {
    let cfg = DeckConfig::new();
    let mut hand = vec![
        Card { rank: Rank::Eight, suit: Suit::Clubs },
        Card { rank: Rank::Eight, suit: Suit::Diamonds },
    ];
    let result = Meld::new(&mut hand, &vec![0, 1, 1], &cfg);
    assert!(matches!(result, Err(MeldError::RepeatedIndex)));
    assert_eq!(hand.len(), 2);

    let result = Meld::new(&mut hand, &vec![0, 1, 7], &cfg);
    assert!(matches!(result, Err(MeldError::IndexOutOfBounds)));
    assert_eq!(hand.len(), 2);
}
