use rummy::card::Card;
use rummy::deck::DeckConfig;
use rummy::error::{ErrorKind, MeldError, RummyError};
use rummy::game::{
    DiscardActions, DrawActions, GamePhase, PlayActions, PlayableActions, RoundEndActions,
    StandardRummyConfig, StandardRummyGame, TransitionResult,
};
use rummy::suit_rank::{Rank, Suit};

/// A 4-player quickstart resolves to one pack with jokers: after the deal the
/// stock holds the 54 cards less the four dealt hands.
#[test]
fn quickstart_four_players() {
    let mut game = StandardRummyGame::quickstart(vec![1, 2, 3, 4]);
    assert_eq!(game.deck().config().pack_count, 1);
    assert!(game.deck().config().use_joker);
    assert!(matches!(game.phase(), GamePhase::RoundEnd { .. }));

    game.to_next_round().unwrap();
    assert!(matches!(game.phase(), GamePhase::Draw { has_drawn: false }));
    // 4 players and 1 pack deal 7 cards each
    for p in game.players() {
        assert_eq!(p.cards.len(), 7);
        assert!(p.active);
    }
    assert_eq!(game.deck().stock().len(), 54 - 4 * 7);
}

/// Two players and one plain pack deal ten cards each, leaving 32 in stock.
#[test]
fn two_players_deal_ten() {
    let deck_config = DeckConfig {
        shuffle_seed: Some(99),
        pack_count: 1,
        use_joker: false,
        high_rank: None,
        wildcard_rank: None,
    };
    let mut game = StandardRummyGame::new(vec![10, 20], StandardRummyConfig::new(), deck_config);
    game.to_next_round().unwrap();
    assert_eq!(game.players().len(), 2);
    for p in game.players() {
        assert_eq!(p.cards.len(), 10);
    }
    assert_eq!(game.deck().stock().len(), 52 - 20);
}

/// More than seven player ids are cut down to seven seats.
#[test]
fn new_truncates_to_seven() {
    let game = StandardRummyGame::quickstart(vec![1, 2, 3, 4, 5, 6, 7, 8, 9]);
    assert_eq!(game.players().len(), 7);
}

/// Discarding the last hand card ends the round rather than passing the turn.
#[test]
fn discard_last_card_ends_round() {
    let mut game = StandardRummyGame::quickstart(vec![1, 2]);
    game.phase = GamePhase::Discard { has_discarded: false };
    game.players[0].cards.push(Card { rank: Rank::Ace, suit: Suit::Spades });

    let result = game.discard(0).unwrap();
    assert_eq!(result, TransitionResult::End);
    assert!(matches!(game.phase(), GamePhase::RoundEnd { has_scored_round: false }));
    assert!(game.players()[0].cards.is_empty());
    assert_eq!(game.deck().discard_pile().len(), 1);
}

/// A second discard in one phase is refused with the state unchanged.
#[test]
fn double_discard_rejected() {
    let mut game = StandardRummyGame::quickstart(vec![1, 2]);
    game.phase = GamePhase::Discard { has_discarded: false };
    game.players[0].cards.push(Card { rank: Rank::Ace, suit: Suit::Spades });
    game.players[0].cards.push(Card { rank: Rank::Two, suit: Suit::Spades });

    assert_eq!(game.discard(0).unwrap(), TransitionResult::Next);
    let result = game.discard(0);
    assert_eq!(result, Err(RummyError::AlreadyDiscarded));
    assert_eq!(game.players()[0].cards.len(), 1);
    assert_eq!(game.deck().discard_pile().len(), 1);
}

/// Passing the turn without an explicit discard auto-discards the player's
/// first hand card exactly once, then the next active player draws.
#[test]
fn to_next_player_auto_discards_once() {
    let mut game = StandardRummyGame::quickstart(vec![1, 2, 3]);
    game.phase = GamePhase::Discard { has_discarded: false };
    game.players[0].cards.push(Card { rank: Rank::Queen, suit: Suit::Hearts });
    game.players[0].cards.push(Card { rank: Rank::King, suit: Suit::Hearts });

    let result = game.to_next_player().unwrap();
    assert_eq!(result, TransitionResult::Next);
    // exactly the first card left the hand, exactly once
    assert_eq!(game.players()[0].cards.len(), 1);
    assert_eq!(game.players()[0].cards[0].data(), (Rank::King, Suit::Hearts));
    assert_eq!(game.deck().discard_pile().len(), 1);
    // and the turn moved to the next active seat
    assert_eq!(game.current_player_index(), 1);
    assert!(matches!(game.phase(), GamePhase::Draw { has_drawn: false }));
}

/// After an explicit discard, passing the turn discards nothing more.
#[test]
fn to_next_player_after_discard() {
    let mut game = StandardRummyGame::quickstart(vec![1, 2]);
    game.phase = GamePhase::Discard { has_discarded: false };
    game.players[0].cards.push(Card { rank: Rank::Queen, suit: Suit::Hearts });
    game.players[0].cards.push(Card { rank: Rank::King, suit: Suit::Hearts });

    assert_eq!(game.discard(1).unwrap(), TransitionResult::Next);
    assert_eq!(game.to_next_player().unwrap(), TransitionResult::Next);
    assert_eq!(game.players()[0].cards.len(), 1);
    assert_eq!(game.deck().discard_pile().len(), 1);
    assert_eq!(game.current_player_index(), 1);
}

/// Drawing from the stock adds one card to the hand and marks the draw taken;
/// actions outside their phase are refused.
#[test]
fn draw_phase_actions() {
    let mut game = StandardRummyGame::quickstart(vec![1, 2]);
    // wrong phase first
    assert_eq!(game.draw_stock(), Err(RummyError::WrongPhase));
    game.to_next_round().unwrap();

    let before = game.players()[0].cards.len();
    game.draw_stock().unwrap();
    assert_eq!(game.players()[0].cards.len(), before + 1);
    assert!(matches!(game.phase(), GamePhase::Draw { has_drawn: true }));

    // discarding during the draw phase is refused
    assert_eq!(game.discard(0), Err(RummyError::WrongPhase));

    game.to_play_phase().unwrap();
    assert!(matches!(game.phase(), GamePhase::Play { .. }));
}

/// Entering the play phase without having drawn takes one stock card
/// automatically.
#[test]
fn to_play_auto_draws() {
    let mut game = StandardRummyGame::quickstart(vec![1, 2]);
    game.to_next_round().unwrap();
    let before = game.players()[0].cards.len();
    let stock_before = game.deck().stock().len();
    game.to_play_phase().unwrap();
    assert_eq!(game.players()[0].cards.len(), before + 1);
    assert_eq!(game.deck().stock().len(), stock_before - 1);
}

/// Drawing from the discard pile takes the asked amount into the hand.
#[test]
fn draw_from_discard_pile() {
    let mut game = StandardRummyGame::quickstart(vec![1, 2]);
    game.to_next_round().unwrap();
    // nothing there yet
    assert_eq!(game.draw_discard_pile(Some(1)), Err(RummyError::EmptyDiscardPile));

    // put one card onto the pile by finishing a turn
    game.to_play_phase().unwrap();
    game.to_discard_phase().unwrap();
    game.to_next_player().unwrap();

    let before = game.players()[1].cards.len();
    game.draw_discard_pile(Some(1)).unwrap();
    assert_eq!(game.players()[1].cards.len(), before + 1);
    assert_eq!(game.deck().discard_pile().len(), 0);
}

/// Forming a meld moves the chosen cards from the hand into the player's
/// melds; a bad selection leaves the hand exactly as it was.
#[test]
fn form_meld_in_game() {
    let mut game = StandardRummyGame::quickstart(vec![1, 2]);
    game.phase = GamePhase::Play { play_count: 0 };
    game.players[0].cards.push(Card { rank: Rank::Five, suit: Suit::Clubs });
    game.players[0].cards.push(Card { rank: Rank::Five, suit: Suit::Diamonds });
    game.players[0].cards.push(Card { rank: Rank::Five, suit: Suit::Hearts });
    game.players[0].cards.push(Card { rank: Rank::King, suit: Suit::Hearts });

    // a failing meld reports both reasons and mutates nothing
    let result = game.form_meld(vec![0, 1, 3]);
    assert!(matches!(result, Err(RummyError::Meld { .. })));
    assert_eq!(game.players()[0].cards.len(), 4);
    assert_eq!(game.players()[0].melds.len(), 0);

    // a valid set leaves the king behind
    assert_eq!(game.form_meld(vec![0, 1, 2]).unwrap(), TransitionResult::Next);
    assert_eq!(game.players()[0].cards.len(), 1);
    assert_eq!(game.players()[0].melds.len(), 1);

    // a second meld, a run this time, leaves only the king behind
    game.players[0].cards.push(Card { rank: Rank::Nine, suit: Suit::Spades });
    game.players[0].cards.push(Card { rank: Rank::Jack, suit: Suit::Spades });
    game.players[0].cards.push(Card { rank: Rank::Ten, suit: Suit::Spades });
    game.players[0].cards.push(Card { rank: Rank::Queen, suit: Suit::Spades });
    // hand: King(h), Nine, Jack, Ten, Queen (all spades but the king)
    let result = game.form_meld(vec![1, 2, 3, 4]).unwrap();
    assert_eq!(result, TransitionResult::Next);
    assert_eq!(game.players()[0].cards.len(), 1);
    assert_eq!(game.players()[0].melds.len(), 2);
}

/// Laying off the hand's last card onto another player's meld wins the round.
#[test]
fn layoff_in_game() {
    let mut game = StandardRummyGame::quickstart(vec![1, 2]);
    game.phase = GamePhase::Play { play_count: 0 };
    // player 1 owns a run of hearts
    game.players[1].cards.push(Card { rank: Rank::Two, suit: Suit::Hearts });
    game.players[1].cards.push(Card { rank: Rank::Three, suit: Suit::Hearts });
    game.players[1].cards.push(Card { rank: Rank::Four, suit: Suit::Hearts });
    game.players[1].cards.push(Card { rank: Rank::Ace, suit: Suit::Clubs });
    game.cur_player = 1;
    assert_eq!(game.form_meld(vec![0, 1, 2]).unwrap(), TransitionResult::Next);
    game.cur_player = 0;

    // player 0 holds the five of hearts and nothing else
    game.players[0].cards.push(Card { rank: Rank::Five, suit: Suit::Hearts });

    // a bad target index is reported
    assert_eq!(game.layoff_card(0, 1, 5), Err(RummyError::MeldOutOfBounds));
    assert_eq!(game.layoff_card(0, 9, 0), Err(RummyError::PlayerOutOfBounds));

    // the five extends the run and empties the hand: the round is won
    let result = game.layoff_card(0, 1, 0).unwrap();
    assert_eq!(result, TransitionResult::End);
    assert!(matches!(game.phase(), GamePhase::RoundEnd { has_scored_round: false }));
    assert!(game.players()[0].cards.is_empty());
}

/// A layoff onto an inactive player's meld is refused.
#[test]
fn layoff_inactive_target_rejected() {
    let mut game = StandardRummyGame::quickstart(vec![1, 2]);
    game.phase = GamePhase::Play { play_count: 0 };
    game.players[0].cards.push(Card { rank: Rank::Five, suit: Suit::Hearts });
    game.players[1].active = false;
    assert_eq!(game.layoff_card(0, 1, 0), Err(RummyError::TargetPlayerInactive));
}

/// Winner-only scoring: the player who went out collects every scoreable
/// hand's value; the others score nothing.
#[test]
fn winner_only_scoring() {
    let mut game = StandardRummyGame::quickstart(vec![7, 8]);
    game.phase = GamePhase::RoundEnd { has_scored_round: false };
    // player 7 went out; player 8 still holds an ace and a king (15 + 10)
    game.players[1].cards.push(Card { rank: Rank::Ace, suit: Suit::Spades });
    game.players[1].cards.push(Card { rank: Rank::King, suit: Suit::Spades });

    game.calculate_score().unwrap();
    assert_eq!(game.score().score_of(0, 7), Some(25));
    assert_eq!(game.score().score_of(0, 8), Some(0));

    // a second call records nothing more
    game.calculate_score().unwrap();
    assert_eq!(game.score().get().len(), 2);
}

/// Individual scoring: each scoreable player is scored with their own hand.
#[test]
fn individual_scoring() {
    let mut config = StandardRummyConfig::new();
    config.score_winner_only = false;
    let deck_config = DeckConfig {
        shuffle_seed: Some(5),
        pack_count: 1,
        use_joker: false,
        high_rank: None,
        wildcard_rank: None,
    };
    let mut game = StandardRummyGame::new(vec![7, 8], config, deck_config);
    game.phase = GamePhase::RoundEnd { has_scored_round: false };
    game.players[0].cards.push(Card { rank: Rank::Two, suit: Suit::Spades });
    game.players[1].cards.push(Card { rank: Rank::Ten, suit: Suit::Spades });
    game.players[1].cards.push(Card { rank: Rank::Nine, suit: Suit::Spades });

    game.calculate_score().unwrap();
    assert_eq!(game.score().score_of(0, 7), Some(2));
    assert_eq!(game.score().score_of(0, 8), Some(19));
}

/// Players who join mid-game sit out until the round that is under way ends.
#[test]
fn add_and_reactivate_player() {
    let mut game = StandardRummyGame::quickstart(vec![1, 2]);
    game.to_next_round().unwrap();

    game.add_player(3, None).unwrap();
    assert_eq!(game.players().len(), 3);
    assert!(!game.players()[2].active);

    // the same id cannot sit twice
    assert_eq!(game.add_player(3, None), Err(RummyError::DuplicatePlayerId));

    // when the round ends, the newcomer is dealt in
    game.phase = GamePhase::RoundEnd { has_scored_round: true };
    game.to_next_round().unwrap();
    assert!(game.players()[2].active);
    assert!(game.players()[2].cards.len() > 0);
}

/// Quitting marks the seat inactive; when one active player is left the round
/// ends, and the current player must quit through its own action.
#[test]
fn quit_players() {
    let mut game = StandardRummyGame::quickstart(vec![1, 2, 3]);
    game.to_next_round().unwrap();

    assert_eq!(game.quit_player(0), Err(RummyError::CannotQuitCurrentPlayer));
    assert_eq!(game.quit_player(9), Err(RummyError::PlayerOutOfBounds));

    assert_eq!(game.quit_player(1).unwrap(), TransitionResult::Next);
    assert!(!game.players()[1].active);

    // two seats down to one active: the round ends
    assert_eq!(game.quit_player(2).unwrap(), TransitionResult::End);
    assert!(matches!(game.phase(), GamePhase::RoundEnd { has_scored_round: false }));
}

/// The current player can quit; the turn moves to the next active seat.
#[test]
fn quit_current_player_advances() {
    let mut game = StandardRummyGame::quickstart(vec![1, 2, 3]);
    game.to_next_round().unwrap();

    game.quit_current_player().unwrap();
    assert!(!game.players()[0].active);
    assert_eq!(game.current_player_index(), 1);
    assert!(matches!(game.phase(), GamePhase::Draw { has_drawn: true }));
}

/// Reordering a hand moves one card and keeps everything else in order; an
/// out-of-range destination clamps to the hand's end.
#[test]
fn move_card_in_hand_reorders() {
    let mut game = StandardRummyGame::quickstart(vec![1, 2]);
    game.players[0].cards.push(Card { rank: Rank::Ace, suit: Suit::Clubs });
    game.players[0].cards.push(Card { rank: Rank::Two, suit: Suit::Clubs });
    game.players[0].cards.push(Card { rank: Rank::Three, suit: Suit::Clubs });

    game.move_card_in_hand(0, 0, 99).unwrap();
    assert_eq!(game.players()[0].cards[0].data(), (Rank::Two, Suit::Clubs));
    assert_eq!(game.players()[0].cards[2].data(), (Rank::Ace, Suit::Clubs));

    assert_eq!(game.move_card_in_hand(0, 5, 0), Err(RummyError::CardOutOfBounds));
    assert_eq!(game.move_card_in_hand(4, 0, 0), Err(RummyError::PlayerOutOfBounds));
}

/// After the game is ended no action is legal.
#[test]
fn game_end_is_terminal() {
    let mut game = StandardRummyGame::quickstart(vec![1, 2]);
    game.end_game().unwrap();
    assert!(matches!(game.phase(), GamePhase::GameEnd));
    assert_eq!(game.add_player(5, None), Err(RummyError::WrongPhase));
    assert_eq!(game.draw_stock(), Err(RummyError::WrongPhase));
    assert_eq!(game.to_next_round(), Err(RummyError::WrongPhase));
    assert_eq!(game.move_card_in_hand(0, 0, 0), Err(RummyError::WrongPhase));
}

/// An empty stock is replenished from the discard pile in the middle of a
/// draw, so drawing keeps working until both piles are out of cards.
#[test]
fn stock_replenished_from_discards() {
    let mut game = StandardRummyGame::quickstart(vec![1, 2]);
    game.phase = GamePhase::Draw { has_drawn: false };
    // stock empty, three cards in the discard pile
    game.deck.stock.clear();
    game.deck.discard_pile.push(Card { rank: Rank::Ace, suit: Suit::Clubs });
    game.deck.discard_pile.push(Card { rank: Rank::Two, suit: Suit::Clubs });
    game.deck.discard_pile.push(Card { rank: Rank::Three, suit: Suit::Clubs });

    game.draw_stock().unwrap();
    assert_eq!(game.players()[0].cards.len(), 1);
    // the turnover put the earliest discard on top
    assert_eq!(game.players()[0].cards[0].data(), (Rank::Ace, Suit::Clubs));
    assert_eq!(game.deck().stock().len(), 2);
    assert_eq!(game.deck().discard_pile().len(), 0);

    game.phase = GamePhase::Draw { has_drawn: false };
    game.draw_stock().unwrap();
    game.phase = GamePhase::Draw { has_drawn: false };
    game.draw_stock().unwrap();
    game.phase = GamePhase::Draw { has_drawn: false };
    assert_eq!(game.draw_stock(), Err(RummyError::NotEnoughCards));
}

/// Every failure names its place in the error taxonomy.
#[test]
fn error_kinds_distinguished() {
    assert_eq!(RummyError::WrongPhase.kind(), ErrorKind::PhaseSequencing);
    assert_eq!(RummyError::AlreadyDiscarded.kind(), ErrorKind::PhaseSequencing);
    assert_eq!(RummyError::CardOutOfBounds.kind(), ErrorKind::Index);
    assert_eq!(RummyError::PlayerOutOfBounds.kind(), ErrorKind::Index);
    assert_eq!(RummyError::NotEnoughCards.kind(), ErrorKind::Capacity);
    assert_eq!(RummyError::EmptyDiscardPile.kind(), ErrorKind::Capacity);
    assert_eq!(RummyError::Layoff(MeldError::CannotLayoff).kind(), ErrorKind::RuleViolation);
    assert_eq!(
        RummyError::Meld { set_error: MeldError::NotASet, run_error: MeldError::NotARun }.kind(),
        ErrorKind::RuleViolation
    );
    assert_eq!(MeldError::IndexOutOfBounds.kind(), ErrorKind::Index);
    assert_eq!(MeldError::WildcardsOnly.kind(), ErrorKind::RuleViolation);
}
