//! The game phase state machine: turn order, per-phase legal actions, round
//! and game termination, and scoring.
//!
//! The five phases live in one [`GamePhase`] tag carried by the game state;
//! every action method checks the tag at run time and reports a
//! phase-sequencing failure when the action is not legal, leaving the state
//! unchanged.

use vstd::prelude::*;
use crate::suit_rank::Rank;
use crate::card::Card;
use crate::deck::{Deck, DeckConfig, generated_cards, seeded_shuffle};
use crate::error::{MeldError, RummyError};
use crate::meld::{
    Meld, Meldable, SetMeld, Run, selected_cards, removed_cards, indices_in_bounds,
    indices_distinct, valid_set, valid_run, anchor_rank, meld_wf, meld_cards, meld_accepts,
    is_wild, lemma_meld_layoff_multiset,
};
use crate::player::Player;

verus! {

/// The game phase, with its phase-local bookkeeping.
#[derive(Clone, Copy, Debug, PartialEq, Eq, Structural)]
pub enum GamePhase {
    /// The current player must draw, from the stock or the discard pile.
    Draw { has_drawn: bool },
    /// The current player may form melds and lay cards off.
    Play { play_count: usize },
    /// The current player must discard exactly one card.
    Discard { has_discarded: bool },
    /// The round is over; scores are recorded before the next round starts.
    RoundEnd { has_scored_round: bool },
    /// The game is over; no further action is legal.
    GameEnd,
}

/// How an action that may end the round came out: the game goes on (possibly
/// in the next phase), or the round ended early.
#[derive(Clone, Copy, Debug, PartialEq, Eq, Structural)]
pub enum TransitionResult {
    /// The action succeeded and play continues.
    Next,
    /// The action succeeded and ended the round; the game sits in the
    /// round-end phase.
    End,
}

/// The configurable options of a standard Rummy game.
#[derive(Clone, Copy, Debug)]
pub struct StandardRummyConfig {
    /// Whether only the round's winner is scored, with the total of all other
    /// players' hands (the overall winner has the highest score), or every
    /// player is scored with their own hand's value (the overall winner has
    /// the lowest score).
    pub score_winner_only: bool,
    /// Whether a player forfeits their cards when they quit, or keeps them
    /// and is scored on the hand as it stands.
    pub forfeit_cards_on_quit: bool,
    /// Whether, once the stock is depleted and the discard pile is moved into
    /// it, to shuffle the stock or just leave it turned over.
    pub shuffle_stock_upon_depletion: bool,
    /// Whether the wildcard rank increases on each round; recorded for
    /// variants that rotate wildcards — the standard engine keeps the
    /// configured wildcard fixed.
    pub increasing_wildcard_rank: bool,
    /// How much of the discard pile can be drawn: `None` lets the player
    /// choose; a fixed amount otherwise.
    pub discard_pile_draw_amount: Option<usize>,
}

impl StandardRummyConfig {
    /// The conventional configuration: winner-only scoring, forfeit on quit,
    /// turnover on depletion, a fixed wildcard, and single-card discard draw.
    pub fn new() -> (c: StandardRummyConfig)
        ensures
            c == (StandardRummyConfig {
                score_winner_only: true,
                forfeit_cards_on_quit: true,
                shuffle_stock_upon_depletion: false,
                increasing_wildcard_rank: false,
                discard_pile_draw_amount: Some(1),
            }),
    {
        StandardRummyConfig {
            score_winner_only: true,
            forfeit_cards_on_quit: true,
            shuffle_stock_upon_depletion: false,
            increasing_wildcard_rank: false,
            discard_pile_draw_amount: Some(1),
        }
    }
}

/// One recorded score: what `player_id` scored in `round`.
#[derive(Clone, Copy, Debug, PartialEq, Eq, Structural)]
pub struct ScoreEntry {
    pub round: usize,
    pub player_id: usize,
    pub score: usize,
}

/// The score sheet of a standard Rummy game: one entry per scored player per
/// round, in the order they were recorded.
#[derive(Debug)]
pub struct StandardRummyScore {
    pub entries: Vec<ScoreEntry>,
}

impl StandardRummyScore {
    /// An empty score sheet.
    pub fn new() -> (s: StandardRummyScore)
        ensures
            s.entries@ == Seq::<ScoreEntry>::empty(),
    {
        StandardRummyScore { entries: Vec::new() }
    }

    /// A reference to every recorded entry.
    pub fn get(&self) -> (e: &Vec<ScoreEntry>)
        ensures
            e == self.entries,
    {
        &self.entries
    }

    /// The first score recorded for `player_id` in `round`, if any.
    pub fn score_of(&self, round: usize, player_id: usize) -> (r: Option<usize>)
        ensures
            (match r {
                Some(s) => exists|k: int|
                    {
                        &&& 0 <= k < self.entries@.len()
                        &&& self.entries@[k].round == round
                        &&& self.entries@[k].player_id == player_id
                        &&& self.entries@[k].score == s
                        &&& forall|t: int|
                            0 <= t < k ==> !(self.entries@[t].round == round
                                && self.entries@[t].player_id == player_id)
                    },
                None => forall|k: int|
                    0 <= k < self.entries@.len() ==> !(self.entries@[k].round == round
                        && self.entries@[k].player_id == player_id),
            }),
    {
        let n = self.entries.len();
        let mut k: usize = 0;
        while k < n
            invariant
                n == self.entries@.len(),
                k <= n,
                forall|t: int|
                    0 <= t < k ==> !(self.entries@[t].round == round && self.entries@[t].player_id
                        == player_id),
            decreases n - k,
        {
            let e = self.entries[k];
            if e.round == round && e.player_id == player_id {
                return Some(e.score);
            }
            k = k + 1;
        }
        None
    }
}

/// The scoring value of one card: 15 for an ace, 10 for a ten or face card,
/// nothing for a joker, and the pip value otherwise.
pub open spec fn card_value(c: Card) -> int {
    match c.rank {
        Rank::Ace => 15,
        Rank::Ten => 10,
        Rank::Jack => 10,
        Rank::Queen => 10,
        Rank::King => 10,
        Rank::Joker => 0,
        Rank::Two => 2,
        Rank::Three => 3,
        Rank::Four => 4,
        Rank::Five => 5,
        Rank::Six => 6,
        Rank::Seven => 7,
        Rank::Eight => 8,
        Rank::Nine => 9,
    }
}

/// The total scoring value of a hand.
pub open spec fn hand_value(cards: Seq<Card>) -> int
    decreases cards.len(),
{
    if cards.len() == 0 {
        0
    } else {
        hand_value(cards.drop_last()) + card_value(cards.last())
    }
}

/// Executable twin of [`card_value`].
pub fn card_value_of(c: &Card) -> (v: usize)
    ensures
        v as int == card_value(*c),
{
    match c.rank {
        Rank::Ace => 15,
        Rank::Ten => 10,
        Rank::Jack => 10,
        Rank::Queen => 10,
        Rank::King => 10,
        Rank::Joker => 0,
        Rank::Two => 2,
        Rank::Three => 3,
        Rank::Four => 4,
        Rank::Five => 5,
        Rank::Six => 6,
        Rank::Seven => 7,
        Rank::Eight => 8,
        Rank::Nine => 9,
    }
}

/// The value of `cards` as a machine word, saturating at the top.
pub open spec fn clipped_hand_value(cards: Seq<Card>) -> int {
    if hand_value(cards) > usize::MAX as int {
        usize::MAX as int
    } else {
        hand_value(cards)
    }
}

/// Sums a hand's scoring value, saturating at the largest machine word.
pub fn hand_value_of(cards: &Vec<Card>) -> (v: usize)
    ensures
        v as int == clipped_hand_value(cards@),
{
    let n = cards.len();
    let mut acc: usize = 0;
    let mut k: usize = 0;
    while k < n
        invariant
            n == cards@.len(),
            k <= n,
            acc as int == clipped_hand_value(cards@.take(k as int)),
        decreases n - k,
    {
        proof {
            assert(cards@.take(k + 1).drop_last() =~= cards@.take(k as int));
            assert(cards@.take(k + 1).last() == cards@[k as int]);
        }
        let v = card_value_of(&cards[k]);
        if acc > usize::MAX - v {
            acc = usize::MAX;
        } else {
            acc = acc + v;
        }
        proof {
            lemma_hand_value_nonneg(cards@.take(k + 1));
        }
        k = k + 1;
    }
    proof {
        assert(cards@.take(n as int) =~= cards@);
    }
    acc
}

/// A hand's value is never negative.
proof fn lemma_hand_value_nonneg(cards: Seq<Card>)
    ensures
        hand_value(cards) >= 0,
    decreases cards.len(),
{
    if cards.len() > 0 {
        lemma_hand_value_nonneg(cards.drop_last());
    }
}

/// How many of the first `upto` players are active.
pub open spec fn count_active(players: Seq<Player>, upto: int) -> int
    decreases upto,
{
    if upto <= 0 {
        0
    } else {
        count_active(players, upto - 1) + (if players[upto - 1].active {
            1int
        } else {
            0int
        })
    }
}

/// Counting active players over a longer prefix never counts fewer.
proof fn lemma_count_active_mono(players: Seq<Player>, i: int, j: int)
    requires
        0 <= i <= j,
    ensures
        count_active(players, i) <= count_active(players, j),
        count_active(players, i) >= 0,
    decreases j - i,
{
    if i < j {
        lemma_count_active_mono(players, i, j - 1);
    } else {
        lemma_count_active_nonneg(players, i);
    }
}

/// An active-player count is never negative.
proof fn lemma_count_active_nonneg(players: Seq<Player>, i: int)
    ensures
        count_active(players, i) >= 0,
    decreases i,
{
    if i > 0 {
        lemma_count_active_nonneg(players, i - 1);
    }
}

/// Active-player counts over a prefix depend only on the prefix's activity
/// flags.
proof fn lemma_count_active_prefix(p1: Seq<Player>, p2: Seq<Player>, upto: int)
    requires
        forall|j: int| 0 <= j < upto ==> p1[j].active == p2[j].active,
    ensures
        count_active(p1, upto) == count_active(p2, upto),
    decreases upto,
{
    if upto > 0 {
        lemma_count_active_prefix(p1, p2, upto - 1);
    }
}

/// The number of cards to deal each player at the start of a round, by player
/// count and pack count, after the conventional dealing table; combinations
/// the table leaves open fall back to the seven-card deal.
pub open spec fn deal_count(num_players: int, num_packs: int) -> int {
    if num_players == 2 && num_packs == 1 {
        10
    } else if num_players == 3 && num_packs == 1 {
        7
    } else if num_players == 3 && num_packs == 2 {
        10
    } else if 4 <= num_players <= 5 && num_packs == 1 {
        7
    } else if 4 <= num_players <= 7 && num_packs == 2 {
        10
    } else if num_players == 6 || num_players == 7 {
        6
    } else {
        7
    }
}

/// Executable twin of [`deal_count`].
pub fn get_cards_to_deal(num_players: usize, num_packs: usize) -> (c: usize)
    ensures
        c as int == deal_count(num_players as int, num_packs as int),
        6 <= c <= 10,
{
    if num_players == 2 && num_packs == 1 {
        10
    } else if num_players == 3 && num_packs == 1 {
        7
    } else if num_players == 3 && num_packs == 2 {
        10
    } else if 4 <= num_players && num_players <= 5 && num_packs == 1 {
        7
    } else if 4 <= num_players && num_players <= 7 && num_packs == 2 {
        10
    } else if num_players == 6 || num_players == 7 {
        6
    } else {
        7
    }
}

/// A game of standard Rummy: the deck, the seats in their fixed order, the
/// round and current-player counters, the phase, and the score sheet.
#[derive(Debug)]
pub struct StandardRummy {
    pub config: StandardRummyConfig,
    pub score: StandardRummyScore,
    pub deck: Deck,
    pub players: Vec<Player>,
    pub cur_round: usize,
    pub cur_player: usize,
    pub phase: GamePhase,
}

/// Entrypoint for starting a standard Rummy game.
pub struct StandardRummyGame();

impl StandardRummyGame {
    /// Starts a new Rummy game with a list of player ids, a game
    /// configuration, and a deck configuration; the game sits in the
    /// round-end phase of round 0, and [`RoundEndActions::to_next_round`]
    /// deals the first round.
    ///
    /// If there are more than 7 ids, the excess is dropped.
    pub fn new(
        player_ids: Vec<usize>,
        game_config: StandardRummyConfig,
        deck_config: DeckConfig,
    ) -> (g: StandardRummy)
        ensures
            g.config == game_config,
            g.score.entries@ == Seq::<ScoreEntry>::empty(),
            g.deck.config == crate::deck::normalize_config(deck_config),
            g.deck.discard_pile@ == Seq::<Card>::empty(),
            g.deck.stock@.to_multiset() == generated_cards(
                crate::deck::normalize_config(deck_config),
            ).to_multiset(),
            (match deck_config.shuffle_seed {
                Some(seed) => g.deck.stock@ == seeded_shuffle(
                    generated_cards(crate::deck::normalize_config(deck_config)),
                    seed,
                ),
                None => exists|seed: u64|
                    g.deck.stock@ == seeded_shuffle(
                        generated_cards(crate::deck::normalize_config(deck_config)),
                        seed,
                    ),
            }),
            g.cur_round == 0,
            g.cur_player == 0,
            g.phase == (GamePhase::RoundEnd { has_scored_round: false }),
            g.players@.len() == (if player_ids@.len() <= 7 {
                player_ids@.len() as int
            } else {
                7
            }),
            forall|k: int|
                0 <= k < g.players@.len() ==> {
                    &&& (#[trigger] g.players@[k]).id == player_ids@[k]
                    &&& g.players@[k].active
                    &&& g.players@[k].joined_in_round == 0
                    &&& g.players@[k].cards@ == Seq::<Card>::empty()
                    &&& g.players@[k].melds@ == Seq::<Meld>::empty()
                },
    {
        let count = if player_ids.len() > 7 {
            7
        } else {
            player_ids.len()
        };
        let mut players: Vec<Player> = Vec::new();
        let mut k: usize = 0;
        while k < count
            invariant
                count <= player_ids@.len(),
                k <= count,
                players@.len() == k,
                forall|t: int|
                    0 <= t < k ==> {
                        &&& (#[trigger] players@[t]).id == player_ids@[t]
                        &&& players@[t].active
                        &&& players@[t].joined_in_round == 0
                        &&& players@[t].cards@ == Seq::<Card>::empty()
                        &&& players@[t].melds@ == Seq::<Meld>::empty()
                    },
            decreases count - k,
        {
            players.push(Player::new(player_ids[k], true, 0));
            k = k + 1;
        }
        StandardRummy {
            config: game_config,
            score: StandardRummyScore::new(),
            deck: Deck::new(deck_config),
            players,
            cur_round: 0,
            cur_player: 0,
            phase: GamePhase::RoundEnd { has_scored_round: false },
        }
    }

    /// Starts a game with default settings, only requiring the player ids:
    /// one pack for up to four players and two beyond that, jokers in play,
    /// and a nondeterministic shuffle.
    pub fn quickstart(player_ids: Vec<usize>) -> (g: StandardRummy)
        ensures
            g.config == (StandardRummyConfig {
                score_winner_only: true,
                forfeit_cards_on_quit: true,
                shuffle_stock_upon_depletion: false,
                increasing_wildcard_rank: false,
                discard_pile_draw_amount: Some(1),
            }),
            g.deck.config == (DeckConfig {
                shuffle_seed: None,
                pack_count: (if player_ids@.len() < 5 {
                    1int
                } else {
                    2int
                }) as usize,
                use_joker: true,
                high_rank: None,
                wildcard_rank: None,
            }),
            g.score.entries@ == Seq::<ScoreEntry>::empty(),
            g.deck.discard_pile@ == Seq::<Card>::empty(),
            g.deck.stock@.to_multiset() == generated_cards(g.deck.config).to_multiset(),
            exists|seed: u64| g.deck.stock@ == seeded_shuffle(generated_cards(g.deck.config), seed),
            g.cur_round == 0,
            g.cur_player == 0,
            g.phase == (GamePhase::RoundEnd { has_scored_round: false }),
            g.players@.len() == (if player_ids@.len() <= 7 {
                player_ids@.len() as int
            } else {
                7
            }),
            forall|k: int|
                0 <= k < g.players@.len() ==> {
                    &&& (#[trigger] g.players@[k]).id == player_ids@[k]
                    &&& g.players@[k].active
                    &&& g.players@[k].joined_in_round == 0
                    &&& g.players@[k].cards@ == Seq::<Card>::empty()
                    &&& g.players@[k].melds@ == Seq::<Meld>::empty()
                },
    {
        let deck_config = DeckConfig {
            shuffle_seed: None,
            pack_count: if player_ids.len() < 5 {
                1
            } else {
                2
            },
            use_joker: true,
            high_rank: None,
            wildcard_rank: None,
        };
        StandardRummyGame::new(player_ids, StandardRummyConfig::new(), deck_config)
    }
}

impl StandardRummy {
    /// A reference to the deck.
    pub fn deck(&self) -> (d: &Deck)
        ensures
            d == self.deck,
    {
        &self.deck
    }

    /// A reference to the seats, in their fixed order.
    pub fn players(&self) -> (p: &Vec<Player>)
        ensures
            p == self.players,
    {
        &self.players
    }

    /// The index of the player whose turn it is.
    pub fn current_player_index(&self) -> (i: usize)
        ensures
            i == self.cur_player,
    {
        self.cur_player
    }

    /// The current round number.
    pub fn current_round(&self) -> (r: usize)
        ensures
            r == self.cur_round,
    {
        self.cur_round
    }

    /// The current phase.
    pub fn phase(&self) -> (p: GamePhase)
        ensures
            p == self.phase,
    {
        self.phase
    }

    /// A reference to the score sheet.
    pub fn score(&self) -> (s: &StandardRummyScore)
        ensures
            s == self.score,
    {
        &self.score
    }
}

/// Nothing about the game changed.
pub open spec fn game_unchanged(pre: StandardRummy, post: StandardRummy) -> bool {
    &&& post.config == pre.config
    &&& post.score.entries@ == pre.score.entries@
    &&& post.deck.config == pre.deck.config
    &&& post.deck.stock@ == pre.deck.stock@
    &&& post.deck.discard_pile@ == pre.deck.discard_pile@
    &&& post.players == pre.players
    &&& post.cur_round == pre.cur_round
    &&& post.cur_player == pre.cur_player
    &&& post.phase == pre.phase
}

/// Everything but the phase tag and the current player's hand is as before:
/// the configurations, score sheet, counters and every other seat.
pub open spec fn same_but_hand_and_piles(pre: StandardRummy, post: StandardRummy) -> bool {
    &&& post.config == pre.config
    &&& post.score.entries@ == pre.score.entries@
    &&& post.deck.config == pre.deck.config
    &&& post.cur_round == pre.cur_round
    &&& post.cur_player == pre.cur_player
    &&& post.players@.len() == pre.players@.len()
    &&& pre.cur_player < pre.players@.len()
    &&& (forall|j: int|
        0 <= j < pre.players@.len() && j != pre.cur_player ==> post.players@[j] == pre.players@[j])
    &&& {
        let a = pre.players@[pre.cur_player as int];
        let b = post.players@[pre.cur_player as int];
        &&& b.id == a.id
        &&& b.active == a.active
        &&& b.joined_in_round == a.joined_in_round
        &&& b.melds == a.melds
    }
}

/// The discard pile was folded into the stock: the new stock is a permutation
/// of both piles together, and exactly their reversal when the variant turns
/// the pile over instead of shuffling.
pub open spec fn replenished_piles(
    stock0: Seq<Card>,
    discard0: Seq<Card>,
    stock1: Seq<Card>,
    discard1: Seq<Card>,
    shuffle: bool,
) -> bool {
    &&& discard1 == Seq::<Card>::empty()
    &&& stock1.to_multiset() =~= (stock0 + discard0).to_multiset()
    &&& stock1.len() == stock0.len() + discard0.len()
    &&& (!shuffle ==> stock1 == (stock0 + discard0).reverse())
}

/// The piles as the drawing player sees them: unchanged while the stock has
/// cards, replenished from the discard pile when it ran out.
pub open spec fn piles_for_draw(
    pre: Deck,
    shuffle: bool,
    stock1: Seq<Card>,
    discard1: Seq<Card>,
) -> bool {
    if pre.stock@.len() > 0 {
        stock1 == pre.stock@ && discard1 == pre.discard_pile@
    } else {
        replenished_piles(pre.stock@, pre.discard_pile@, stock1, discard1, shuffle)
    }
}

/// The piles after the draw: what the draw left, replenished once more when
/// it emptied the stock.
pub open spec fn piles_after_draw(
    stock_rem: Seq<Card>,
    discard1: Seq<Card>,
    shuffle: bool,
    post: Deck,
) -> bool {
    if stock_rem.len() > 0 {
        post.stock@ == stock_rem && post.discard_pile@ == discard1
    } else {
        replenished_piles(stock_rem, discard1, post.stock@, post.discard_pile@, shuffle)
    }
}

/// One card moved from the top of the (replenished-as-needed) stock into the
/// current player's hand; every card of the two piles and the hand is
/// conserved.
pub open spec fn drew_stock_card(pre: StandardRummy, post: StandardRummy) -> bool {
    &&& same_but_hand_and_piles(pre, post)
    &&& exists|stock1: Seq<Card>, discard1: Seq<Card>|
        {
            &&& #[trigger] piles_for_draw(
                pre.deck,
                pre.config.shuffle_stock_upon_depletion,
                stock1,
                discard1,
            )
            &&& stock1.len() > 0
            &&& post.players@[pre.cur_player as int].cards@ == pre.players@[
                pre.cur_player as int
            ].cards@.push(stock1.last())
            &&& piles_after_draw(
                stock1.drop_last(),
                discard1,
                pre.config.shuffle_stock_upon_depletion,
                post.deck,
            )
        }
    &&& post.deck.stock@.len() + post.deck.discard_pile@.len() + 1 == pre.deck.stock@.len()
        + pre.deck.discard_pile@.len()
}

impl StandardRummy {
    /// Draws one card from the stock into the current player's hand; when the
    /// stock is out of cards, the discard pile replenishes it, before or after
    /// the draw as needed, by the variant's turnover or reshuffle policy.
    /// Fails only outside the draw phase, without a seated current player, or
    /// with both piles empty.
    fn draw_stock_card(&mut self) -> (r: Result<(), RummyError>)
        ensures
            (match r {
                Ok(()) => {
                    &&& drew_stock_card(*old(self), *final(self))
                    &&& final(self).phase == old(self).phase
                },
                Err(e) => {
                    &&& game_unchanged(*old(self), *final(self))
                    &&& (e == RummyError::PlayerOutOfBounds || e == RummyError::NotEnoughCards)
                    &&& (e == RummyError::PlayerOutOfBounds <==> old(self).cur_player >= old(
                        self,
                    ).players@.len())
                    &&& (e == RummyError::NotEnoughCards <==> old(self).cur_player < old(
                        self,
                    ).players@.len() && old(self).deck.stock@.len() == 0 && old(
                        self,
                    ).deck.discard_pile@.len() == 0)
                },
            }),
    {
        if self.cur_player >= self.players.len() {
            return Err(RummyError::PlayerOutOfBounds);
        }
        let ghost pre_deck = self.deck;
        if self.deck.stock.len() == 0 {
            if self.deck.discard_pile.len() == 0 {
                return Err(RummyError::NotEnoughCards);
            }
            if self.config.shuffle_stock_upon_depletion {
                self.deck.shuffle_discarded();
            } else {
                self.deck.turnover_discarded();
            }
            proof {
                assert(self.deck.stock@.to_multiset() =~= (pre_deck.stock@
                    + pre_deck.discard_pile@).to_multiset());
                assert(replenished_piles(
                    pre_deck.stock@,
                    pre_deck.discard_pile@,
                    self.deck.stock@,
                    self.deck.discard_pile@,
                    self.config.shuffle_stock_upon_depletion,
                ));
            }
        }
        let ghost stock1 = self.deck.stock@;
        let ghost discard1 = self.deck.discard_pile@;
        proof {
            assert(piles_for_draw(
                pre_deck,
                self.config.shuffle_stock_upon_depletion,
                stock1,
                discard1,
            ));
        }
        let cards = match self.deck.draw(1) {
            Ok(cards) => cards,
            Err(e) => {
                // unreachable: the stock was replenished and checked nonempty
                proof {
                    assert(false);
                }
                return Err(e);
            },
        };
        let card = cards[0];
        let cur = self.cur_player;
        let mut p = self.players.remove(cur);
        p.cards.push(card);
        self.players.insert(cur, p);
        let ghost stock_rem = self.deck.stock@;
        let ghost discard_rem = self.deck.discard_pile@;
        proof {
            assert(stock1.drop_last() =~= stock1.take(stock1.len() - 1));
            assert(stock_rem == stock1.drop_last());
            assert(discard_rem == discard1);
        }
        if self.deck.stock.len() == 0 {
            if self.config.shuffle_stock_upon_depletion {
                self.deck.shuffle_discarded();
            } else {
                self.deck.turnover_discarded();
            }
            proof {
                assert(self.deck.stock@.to_multiset() =~= (stock_rem
                    + discard_rem).to_multiset());
            }
        }
        proof {
            assert(old(self).players@.remove(cur as int).insert(cur as int, self.players@[
                cur as int]) =~= old(self).players@.update(cur as int, self.players@[cur as int]));
            assert(cards@.len() == 1);
            assert(card == stock1.last());
            assert(piles_after_draw(
                stock1.drop_last(),
                discard1,
                old(self).config.shuffle_stock_upon_depletion,
                self.deck,
            ));
        }
        Ok(())
    }
}

/// Actions of the draw phase: the current player takes cards, then play
/// begins.
pub trait DrawActions {
    /// Draws one stock card for the current player.
    fn draw_stock(&mut self) -> Result<(), RummyError>;

    /// Draws from the discard pile for the current player: `amount` cards, or
    /// the whole pile when `amount` is `None`.
    fn draw_discard_pile(&mut self, amount: Option<usize>) -> Result<(), RummyError>;

    /// Moves to the play phase, drawing one stock card automatically if the
    /// player has not drawn yet.
    fn to_play_phase(&mut self) -> Result<(), RummyError>;
}

impl DrawActions for StandardRummy {
    /// Draws one stock card for the current player and marks the turn's draw
    /// as taken; legal only in the draw phase. The discard pile replenishes
    /// an empty stock, before or after the draw as needed, by the variant's
    /// turnover or reshuffle policy.
    fn draw_stock(&mut self) -> (r: Result<(), RummyError>)
        ensures
            (match r {
                Ok(()) => {
                    &&& old(self).phase is Draw
                    &&& drew_stock_card(*old(self), *final(self))
                    &&& final(self).phase == (GamePhase::Draw { has_drawn: true })
                },
                Err(e) => {
                    &&& game_unchanged(*old(self), *final(self))
                    &&& (e == RummyError::WrongPhase || e == RummyError::PlayerOutOfBounds || e
                        == RummyError::NotEnoughCards)
                    &&& (e == RummyError::WrongPhase <==> !(old(self).phase is Draw))
                    &&& (e == RummyError::PlayerOutOfBounds <==> old(self).phase is Draw && old(
                        self,
                    ).cur_player >= old(self).players@.len())
                    &&& (e == RummyError::NotEnoughCards <==> old(self).phase is Draw && old(
                        self,
                    ).cur_player < old(self).players@.len() && old(self).deck.stock@.len() == 0
                        && old(self).deck.discard_pile@.len() == 0)
                },
            }),
    {
        if !matches!(self.phase, GamePhase::Draw { .. }) {
            return Err(RummyError::WrongPhase);
        }
        match self.draw_stock_card() {
            Ok(()) => {
                self.phase = GamePhase::Draw { has_drawn: true };
                Ok(())
            },
            Err(e) => Err(e),
        }
    }

    /// Draws `amount` cards (or the whole pile for `None`) from the discard
    /// pile into the current player's hand and marks the turn's draw as
    /// taken; legal only in the draw phase. Fails without drawing anything if
    /// the pile is empty or holds fewer than `amount` cards.
    fn draw_discard_pile(&mut self, amount: Option<usize>) -> (r: Result<(), RummyError>)
        ensures
            (match r {
                Ok(()) => {
                    &&& old(self).phase is Draw
                    &&& same_but_hand_and_piles(*old(self), *final(self))
                    &&& final(self).phase == (GamePhase::Draw { has_drawn: true })
                    &&& old(self).deck.discard_pile@.len() > 0
                    &&& final(self).deck.stock@ == old(self).deck.stock@
                    &&& {
                        let taken = (match amount {
                            Some(a) => a as int,
                            None => old(self).deck.discard_pile@.len() as int,
                        });
                        &&& taken <= old(self).deck.discard_pile@.len()
                        &&& final(self).deck.discard_pile@ == old(self).deck.discard_pile@.take(
                            old(self).deck.discard_pile@.len() - taken,
                        )
                        &&& final(self).players@[old(self).cur_player as int].cards@ == old(
                            self,
                        ).players@[old(self).cur_player as int].cards@ + old(
                            self,
                        ).deck.discard_pile@.skip(old(self).deck.discard_pile@.len() - taken)
                    }
                },
                Err(e) => {
                    &&& game_unchanged(*old(self), *final(self))
                    &&& (e == RummyError::WrongPhase || e == RummyError::PlayerOutOfBounds || e
                        == RummyError::EmptyDiscardPile || e == RummyError::NotEnoughCards)
                    &&& (e == RummyError::WrongPhase <==> !(old(self).phase is Draw))
                    &&& (e == RummyError::PlayerOutOfBounds <==> old(self).phase is Draw && old(
                        self,
                    ).cur_player >= old(self).players@.len())
                    &&& (e == RummyError::EmptyDiscardPile <==> old(self).phase is Draw && old(
                        self,
                    ).cur_player < old(self).players@.len() && old(self).deck.discard_pile@.len()
                        == 0)
                    &&& (e == RummyError::NotEnoughCards <==> old(self).phase is Draw && old(
                        self,
                    ).cur_player < old(self).players@.len() && old(self).deck.discard_pile@.len()
                        > 0 && (amount matches Some(a) && a > old(self).deck.discard_pile@.len()))
                },
            }),
    {
        if !matches!(self.phase, GamePhase::Draw { .. }) {
            return Err(RummyError::WrongPhase);
        }
        if self.cur_player >= self.players.len() {
            return Err(RummyError::PlayerOutOfBounds);
        }
        let mut cards = match self.deck.draw_discard_pile(amount) {
            Ok(cards) => cards,
            Err(e) => {
                return Err(e);
            },
        };
        let cur = self.cur_player;
        let mut p = self.players.remove(cur);
        p.cards.append(&mut cards);
        self.players.insert(cur, p);
        self.phase = GamePhase::Draw { has_drawn: true };
        proof {
            assert(old(self).players@.remove(cur as int).insert(cur as int, self.players@[
                cur as int]) =~= old(self).players@.update(cur as int, self.players@[cur as int]));
        }
        Ok(())
    }

    /// Moves to the play phase; legal only in the draw phase, and otherwise
    /// infallible. If the player has not drawn yet, one stock card is drawn
    /// automatically first; when no card is left to draw anywhere, the phase
    /// still advances.
    fn to_play_phase(&mut self) -> (r: Result<(), RummyError>)
        ensures
            (match r {
                Ok(()) => {
                    &&& old(self).phase is Draw
                    &&& final(self).phase == (GamePhase::Play { play_count: 0 })
                    &&& (old(self).phase == (GamePhase::Draw { has_drawn: true }) ==> {
                        &&& final(self).config == old(self).config
                        &&& final(self).score.entries@ == old(self).score.entries@
                        &&& final(self).deck == old(self).deck
                        &&& final(self).players == old(self).players
                        &&& final(self).cur_round == old(self).cur_round
                        &&& final(self).cur_player == old(self).cur_player
                    })
                    &&& (old(self).phase == (GamePhase::Draw { has_drawn: false }) ==> (
                    drew_stock_card(*old(self), *final(self)) || {
                        &&& game_unchanged_but_phase(*old(self), *final(self))
                        &&& (old(self).cur_player >= old(self).players@.len() || (old(
                            self,
                        ).deck.stock@.len() == 0 && old(self).deck.discard_pile@.len() == 0))
                    }))
                },
                Err(e) => {
                    &&& game_unchanged(*old(self), *final(self))
                    &&& e == RummyError::WrongPhase
                    &&& !(old(self).phase is Draw)
                },
            }),
    {
        let has_drawn = match self.phase {
            GamePhase::Draw { has_drawn } => has_drawn,
            _ => {
                return Err(RummyError::WrongPhase);
            },
        };
        if !has_drawn {
            let _unused = self.draw_stock_card();
        }
        self.phase = GamePhase::Play { play_count: 0 };
        Ok(())
    }
}

/// The two players are the same seat in the same state, the hand possibly
/// rebuilt but card for card equal.
pub open spec fn player_untouched(a: Player, b: Player) -> bool {
    &&& b.id == a.id
    &&& b.active == a.active
    &&& b.joined_in_round == a.joined_in_round
    &&& b.melds == a.melds
    &&& b.cards@ == a.cards@
}

/// Nothing about the game changed, allowing the current player's hand to have
/// been rebuilt card for card.
pub open spec fn game_unchanged_hand_views(pre: StandardRummy, post: StandardRummy) -> bool {
    &&& post.config == pre.config
    &&& post.score.entries@ == pre.score.entries@
    &&& post.deck == pre.deck
    &&& post.cur_round == pre.cur_round
    &&& post.cur_player == pre.cur_player
    &&& post.phase == pre.phase
    &&& post.players@.len() == pre.players@.len()
    &&& (forall|j: int|
        0 <= j < pre.players@.len() && j != pre.cur_player ==> post.players@[j] == pre.players@[j])
    &&& (pre.cur_player < pre.players@.len() ==> player_untouched(
        pre.players@[pre.cur_player as int],
        post.players@[pre.cur_player as int],
    ))
}

/// The selected cards left the current player's hand as one fresh meld; the
/// rest of the game is as before.
pub open spec fn formed_meld(
    pre: StandardRummy,
    post: StandardRummy,
    indices: Seq<usize>,
) -> bool {
    let cur = pre.cur_player as int;
    let hand = pre.players@[cur].cards@;
    let sel = selected_cards(hand, indices);
    let dcfg = pre.deck.config;
    &&& pre.cur_player < pre.players@.len()
    &&& indices_in_bounds(hand, indices)
    &&& indices_distinct(indices)
    &&& (valid_set(sel, dcfg) || valid_run(sel, dcfg))
    &&& post.config == pre.config
    &&& post.score.entries@ == pre.score.entries@
    &&& post.deck == pre.deck
    &&& post.cur_round == pre.cur_round
    &&& post.cur_player == pre.cur_player
    &&& post.players@.len() == pre.players@.len()
    &&& (forall|j: int|
        0 <= j < pre.players@.len() && j != cur ==> post.players@[j] == pre.players@[j])
    &&& {
        let a = pre.players@[cur];
        let b = post.players@[cur];
        &&& b.id == a.id
        &&& b.active == a.active
        &&& b.joined_in_round == a.joined_in_round
        &&& b.cards@ == removed_cards(hand, indices)
        &&& b.cards@.len() + indices.len() == hand.len()
        &&& b.melds@ == a.melds@.push(b.melds@.last())
        &&& {
            let m = b.melds@.last();
            &&& meld_wf(m, dcfg)
            &&& (valid_set(sel, dcfg) <==> m is SetMeld)
            &&& (m matches Meld::SetMeld(s) ==> s.cards@ == sel && s.set_rank == anchor_rank(
                sel,
                dcfg,
            ))
            &&& (m matches Meld::RunMeld(run) ==> valid_run(sel, dcfg)
                && run.cards@.to_multiset() == sel.to_multiset() && run.cards@.len() == sel.len())
        }
    }
}

/// Actions of the play phase: the current player lays melds and cards down,
/// then moves on to discard.
pub trait PlayActions {
    /// Forms a meld from the hand positions in `card_indices`.
    fn form_meld(&mut self, card_indices: Vec<usize>) -> Result<TransitionResult, RummyError>;

    /// Lays the current player's card at `card_i` off onto
    /// `target_player_i`'s meld at `target_meld_i`.
    fn layoff_card(
        &mut self,
        card_i: usize,
        target_player_i: usize,
        target_meld_i: usize,
    ) -> Result<TransitionResult, RummyError>;

    /// Moves to the discard phase; always legal during play.
    fn to_discard_phase(&mut self) -> Result<(), RummyError>;
}

impl PlayActions for StandardRummy {
    /// Forms a meld from the current player's hand: set validation is
    /// attempted first, then run validation; whichever succeeds moves the
    /// selected cards out of the hand into a new meld appended to the
    /// player's melds. Forming a meld from the whole hand wins the round.
    ///
    /// On failure the hand is left exactly as it was, and both the set and
    /// the run rejection reasons are reported.
    fn form_meld(&mut self, card_indices: Vec<usize>) -> (r: Result<
        TransitionResult,
        RummyError,
    >)
        ensures
            (match r {
                Ok(tr) => {
                    &&& old(self).phase is Play
                    &&& formed_meld(*old(self), *final(self), card_indices@)
                    &&& (tr is End <==> final(self).players@[old(
                        self,
                    ).cur_player as int].cards@.len() == 0)
                    &&& (tr is End ==> final(self).phase == (GamePhase::RoundEnd {
                        has_scored_round: false,
                    }))
                    &&& (tr is Next ==> final(self).phase == old(self).phase)
                },
                Err(e) => {
                    &&& game_unchanged_hand_views(*old(self), *final(self))
                    &&& (e == RummyError::WrongPhase <==> !(old(self).phase is Play))
                    &&& (e == RummyError::PlayerOutOfBounds <==> old(self).phase is Play && old(
                        self,
                    ).cur_player >= old(self).players@.len())
                    &&& (e matches RummyError::Meld { set_error, run_error } ==> {
                        let hand = old(self).players@[old(self).cur_player as int].cards@;
                        let sel = selected_cards(hand, card_indices@);
                        let dcfg = old(self).deck.config;
                        let in_bounds = indices_in_bounds(hand, card_indices@);
                        let distinct = indices_distinct(card_indices@);
                        &&& old(self).phase is Play
                        &&& old(self).cur_player < old(self).players@.len()
                        &&& (in_bounds && distinct ==> !valid_set(sel, dcfg) && !valid_run(
                            sel,
                            dcfg,
                        ))
                        &&& (set_error == MeldError::IndexOutOfBounds <==> !in_bounds)
                        &&& (set_error == MeldError::RepeatedIndex <==> in_bounds && !distinct)
                        &&& (set_error == MeldError::TooFewCards <==> in_bounds && distinct
                            && sel.len() < 3)
                        &&& (run_error == MeldError::NotARun ==> !valid_run(sel, dcfg))
                        &&& (set_error == MeldError::NotASet ==> !valid_set(sel, dcfg))
                        &&& (set_error != MeldError::NotASet ==> run_error == set_error)
                        &&& (set_error == MeldError::NotASet ==> run_error == MeldError::NotARun)
                        &&& (set_error == MeldError::WildcardsOnly <==> in_bounds && distinct
                            && sel.len() >= 3 && (forall|k: int|
                            0 <= k < sel.len() ==> is_wild(sel[k], dcfg)))
                    })
                    &&& (old(self).phase is Play && old(self).cur_player < old(
                        self,
                    ).players@.len() ==> e matches RummyError::Meld { .. })
                },
            }),
    {
        if !matches!(self.phase, GamePhase::Play { .. }) {
            return Err(RummyError::WrongPhase);
        }
        if self.cur_player >= self.players.len() {
            return Err(RummyError::PlayerOutOfBounds);
        }
        let config = *self.deck.config();
        let cur = self.cur_player;
        let mut p = self.players.remove(cur);
        let set_error = match SetMeld::new(&mut p.cards, &card_indices, &config) {
            Ok(set) => {
                p.melds.push(Meld::SetMeld(set));
                let emptied = p.cards.len() == 0;
                self.players.insert(cur, p);
                proof {
                    assert(old(self).players@.remove(cur as int).insert(
                        cur as int,
                        self.players@[cur as int],
                    ) =~= old(self).players@.update(cur as int, self.players@[cur as int]));
                }
                if emptied {
                    self.phase = GamePhase::RoundEnd { has_scored_round: false };
                    return Ok(TransitionResult::End);
                }
                return Ok(TransitionResult::Next);
            },
            Err(e) => e,
        };
        if matches!(set_error, MeldError::NotASet) {
            match Run::new(&mut p.cards, &card_indices, &config) {
                Ok(run) => {
                    p.melds.push(Meld::RunMeld(run));
                    let emptied = p.cards.len() == 0;
                    self.players.insert(cur, p);
                    proof {
                        assert(old(self).players@.remove(cur as int).insert(
                            cur as int,
                            self.players@[cur as int],
                        ) =~= old(self).players@.update(cur as int, self.players@[cur as int]));
                    }
                    if emptied {
                        self.phase = GamePhase::RoundEnd { has_scored_round: false };
                        Ok(TransitionResult::End)
                    } else {
                        Ok(TransitionResult::Next)
                    }
                },
                Err(run_error) => {
                    self.players.insert(cur, p);
                    proof {
                        assert(old(self).players@.remove(cur as int).insert(
                            cur as int,
                            self.players@[cur as int],
                        ) =~= old(self).players@.update(cur as int, self.players@[cur as int]));
                    }
                    Err(RummyError::Meld { set_error, run_error })
                },
            }
        } else {
            self.players.insert(cur, p);
            proof {
                assert(old(self).players@.remove(cur as int).insert(cur as int, self.players@[
                    cur as int]) =~= old(self).players@.update(cur as int, self.players@[
                    cur as int]));
            }
            Err(RummyError::Meld { set_error, run_error: set_error })
        }
    }

    /// Lays one card from the current player's hand off onto an existing meld
    /// of any active player. The target indices are validated first; the meld
    /// then takes the card only where the rules allow it, and on any failure
    /// nothing changes. Laying off the hand's last card wins the round.
    #[verifier::rlimit(100)]
    #[verifier::spinoff_prover]
    fn layoff_card(
        &mut self,
        card_i: usize,
        target_player_i: usize,
        target_meld_i: usize,
    ) -> (r: Result<TransitionResult, RummyError>)
        ensures
            (match r {
                Ok(tr) => {
                    let cur = old(self).cur_player as int;
                    let hand = old(self).players@[cur].cards@;
                    let card = hand[card_i as int];
                    let dcfg = old(self).deck.config;
                    let target = old(self).players@[target_player_i as int];
                    let meld = target.melds@[target_meld_i as int];
                    &&& old(self).phase is Play
                    &&& old(self).cur_player < old(self).players@.len()
                    &&& (card_i as int) < hand.len()
                    &&& (target_player_i as int) < old(self).players@.len()
                    &&& target.active
                    &&& (target_meld_i as int) < target.melds@.len()
                    &&& meld_accepts(meld, card, dcfg)
                    &&& final(self).config == old(self).config
                    &&& final(self).score.entries@ == old(self).score.entries@
                    &&& final(self).deck == old(self).deck
                    &&& final(self).cur_round == old(self).cur_round
                    &&& final(self).cur_player == old(self).cur_player
                    &&& final(self).players@.len() == old(self).players@.len()
                    &&& (forall|j: int|
                        0 <= j < old(self).players@.len() && j != cur && j != target_player_i
                            ==> final(self).players@[j] == old(self).players@[j])
                    &&& {
                        let a = old(self).players@[cur];
                        let b = final(self).players@[cur];
                        &&& b.id == a.id
                        &&& b.active == a.active
                        &&& b.joined_in_round == a.joined_in_round
                        &&& b.cards@ == hand.remove(card_i as int)
                    }
                    &&& {
                        let ta = old(self).players@[target_player_i as int];
                        let tb = final(self).players@[target_player_i as int];
                        &&& tb.id == ta.id
                        &&& tb.active == ta.active
                        &&& tb.joined_in_round == ta.joined_in_round
                        &&& (target_player_i != cur ==> tb.cards@ == ta.cards@)
                        &&& tb.melds@.len() == ta.melds@.len()
                        &&& (forall|j: int|
                            0 <= j < ta.melds@.len() && j != target_meld_i ==> tb.melds@[j]
                                == ta.melds@[j])
                        &&& {
                            let m2 = tb.melds@[target_meld_i as int];
                            &&& (meld_wf(meld, dcfg) ==> meld_wf(m2, dcfg))
                            &&& (meld is SetMeld <==> m2 is SetMeld)
                            &&& meld_cards(m2).to_multiset() == meld_cards(meld).to_multiset().insert(
                                card,
                            )
                        }
                    }
                    &&& (tr is End <==> final(self).players@[cur].cards@.len() == 0)
                    &&& (tr is End ==> final(self).phase == (GamePhase::RoundEnd {
                        has_scored_round: false,
                    }))
                    &&& (tr is Next ==> final(self).phase == old(self).phase)
                },
                Err(e) => {
                    let cur = old(self).cur_player as int;
                    &&& game_unchanged_meld_views(*old(self), *final(self), target_player_i as int)
                    &&& (e == RummyError::WrongPhase || e == RummyError::PlayerOutOfBounds || e
                        == RummyError::CardOutOfBounds || e == RummyError::TargetPlayerInactive
                        || e == RummyError::MeldOutOfBounds || e == RummyError::Layoff(
                        MeldError::CannotLayoff,
                    ))
                    &&& (e == RummyError::WrongPhase <==> !(old(self).phase is Play))
                    &&& (old(self).phase is Play ==> {
                        let cur_ok = old(self).cur_player < old(self).players@.len();
                        let hand_ok = cur_ok && (card_i as int) < old(self).players@[
                            cur
                        ].cards@.len();
                        let target_ok = hand_ok && (target_player_i as int) < old(
                            self,
                        ).players@.len();
                        let active_ok = target_ok && old(self).players@[
                            target_player_i as int
                        ].active;
                        let meld_ok = active_ok && (target_meld_i as int) < old(self).players@[
                            target_player_i as int
                        ].melds@.len();
                        &&& (e == RummyError::PlayerOutOfBounds <==> (!cur_ok || (hand_ok
                            && (target_player_i as int) >= old(self).players@.len())))
                        &&& (e == RummyError::CardOutOfBounds <==> cur_ok && (card_i as int) >= old(
                            self,
                        ).players@[cur].cards@.len())
                        &&& (e == RummyError::TargetPlayerInactive <==> target_ok && !old(
                            self,
                        ).players@[target_player_i as int].active)
                        &&& (e == RummyError::MeldOutOfBounds <==> active_ok && (
                        target_meld_i as int) >= old(self).players@[
                            target_player_i as int
                        ].melds@.len())
                        &&& (e matches RummyError::Layoff(me) ==> meld_ok && me
                            == MeldError::CannotLayoff && !meld_accepts(
                            old(self).players@[target_player_i as int].melds@[
                                target_meld_i as int
                            ],
                            old(self).players@[cur].cards@[card_i as int],
                            old(self).deck.config,
                        ))
                        &&& (meld_ok && !meld_accepts(
                            old(self).players@[target_player_i as int].melds@[
                                target_meld_i as int
                            ],
                            old(self).players@[cur].cards@[card_i as int],
                            old(self).deck.config,
                        ) ==> e == RummyError::Layoff(MeldError::CannotLayoff))
                    })
                },
            }),
    {
        if !matches!(self.phase, GamePhase::Play { .. }) {
            return Err(RummyError::WrongPhase);
        }
        if self.cur_player >= self.players.len() {
            return Err(RummyError::PlayerOutOfBounds);
        }
        let cur = self.cur_player;
        if card_i >= self.players[cur].cards.len() {
            return Err(RummyError::CardOutOfBounds);
        }
        if target_player_i >= self.players.len() {
            return Err(RummyError::PlayerOutOfBounds);
        }
        if !self.players[target_player_i].active {
            return Err(RummyError::TargetPlayerInactive);
        }
        if target_meld_i >= self.players[target_player_i].melds.len() {
            return Err(RummyError::MeldOutOfBounds);
        }
        let config = *self.deck.config();
        if target_player_i == cur {
            let mut p = self.players.remove(cur);
            let mut meld = p.melds.remove(target_meld_i);
            let res = meld.layoff_card(&mut p.cards, card_i, &config);
            p.melds.insert(target_meld_i, meld);
            let emptied = p.cards.len() == 0;
            self.players.insert(cur, p);
            proof {
                assert(old(self).players@.remove(cur as int).insert(cur as int, self.players@[
                    cur as int]) =~= old(self).players@.update(cur as int, self.players@[
                    cur as int]));
                let pm = old(self).players@[cur as int].melds@;
                assert(pm.remove(target_meld_i as int).insert(
                    target_meld_i as int,
                    self.players@[cur as int].melds@[target_meld_i as int],
                ) =~= pm.update(
                    target_meld_i as int,
                    self.players@[cur as int].melds@[target_meld_i as int],
                ));
                broadcast use vstd::seq_lib::group_to_multiset_ensures;
                broadcast use vstd::seq_lib::to_multiset_insert;
                broadcast use vstd::multiset::group_multiset_axioms;

            }
            match res {
                Ok(()) => {
                    proof {
                        lemma_meld_layoff_multiset(
                            old(self).players@[target_player_i as int].melds@[
                                target_meld_i as int],
                            self.players@[target_player_i as int].melds@[target_meld_i as int],
                            old(self).players@[old(self).cur_player as int].cards@[card_i as int],
                        );
                    }
                    if emptied {
                        self.phase = GamePhase::RoundEnd { has_scored_round: false };
                        Ok(TransitionResult::End)
                    } else {
                        Ok(TransitionResult::Next)
                    }
                },
                Err(e) => Err(RummyError::Layoff(e)),
            }
        } else {
            let mut tp = self.players.remove(target_player_i);
            let cur_adj = if cur > target_player_i {
                cur - 1
            } else {
                cur
            };
            let mut cp = self.players.remove(cur_adj);
            let mut meld = tp.melds.remove(target_meld_i);
            let res = meld.layoff_card(&mut cp.cards, card_i, &config);
            tp.melds.insert(target_meld_i, meld);
            let emptied = cp.cards.len() == 0;
            self.players.insert(cur_adj, cp);
            self.players.insert(target_player_i, tp);
            proof {
                let pre = old(self).players@;
                assert(pre.remove(target_player_i as int).remove(cur_adj as int).insert(
                    cur_adj as int,
                    self.players@[cur as int],
                ).insert(target_player_i as int, self.players@[target_player_i as int]) =~= pre
                    .update(cur as int, self.players@[cur as int]).update(
                    target_player_i as int,
                    self.players@[target_player_i as int],
                ));
                let tm = old(self).players@[target_player_i as int].melds@;
                assert(tm.remove(target_meld_i as int).insert(
                    target_meld_i as int,
                    self.players@[target_player_i as int].melds@[target_meld_i as int],
                ) =~= tm.update(
                    target_meld_i as int,
                    self.players@[target_player_i as int].melds@[target_meld_i as int],
                ));
                broadcast use vstd::seq_lib::group_to_multiset_ensures;
                broadcast use vstd::seq_lib::to_multiset_insert;
                broadcast use vstd::multiset::group_multiset_axioms;

            }
            match res {
                Ok(()) => {
                    proof {
                        lemma_meld_layoff_multiset(
                            old(self).players@[target_player_i as int].melds@[
                                target_meld_i as int],
                            self.players@[target_player_i as int].melds@[target_meld_i as int],
                            old(self).players@[old(self).cur_player as int].cards@[card_i as int],
                        );
                    }
                    if emptied {
                        self.phase = GamePhase::RoundEnd { has_scored_round: false };
                        Ok(TransitionResult::End)
                    } else {
                        Ok(TransitionResult::Next)
                    }
                },
                Err(e) => Err(RummyError::Layoff(e)),
            }
        }
    }

    /// Moves to the discard phase; legal only during play, and otherwise
    /// infallible.
    fn to_discard_phase(&mut self) -> (r: Result<(), RummyError>)
        ensures
            (match r {
                Ok(()) => {
                    &&& old(self).phase is Play
                    &&& game_unchanged_but_phase(*old(self), *final(self))
                    &&& final(self).phase == (GamePhase::Discard { has_discarded: false })
                },
                Err(e) => {
                    &&& game_unchanged(*old(self), *final(self))
                    &&& e == RummyError::WrongPhase
                    &&& !(old(self).phase is Play)
                },
            }),
    {
        if !matches!(self.phase, GamePhase::Play { .. }) {
            return Err(RummyError::WrongPhase);
        }
        self.phase = GamePhase::Discard { has_discarded: false };
        Ok(())
    }
}

/// Nothing about the game changed, allowing the current player's hand and the
/// target player's meld list to have been rebuilt element for element.
pub open spec fn game_unchanged_meld_views(
    pre: StandardRummy,
    post: StandardRummy,
    target: int,
) -> bool {
    &&& post.config == pre.config
    &&& post.score.entries@ == pre.score.entries@
    &&& post.deck == pre.deck
    &&& post.cur_round == pre.cur_round
    &&& post.cur_player == pre.cur_player
    &&& post.phase == pre.phase
    &&& post.players@.len() == pre.players@.len()
    &&& (forall|j: int|
        0 <= j < pre.players@.len() && j != pre.cur_player && j != target ==> post.players@[j]
            == pre.players@[j])
    &&& (pre.cur_player < pre.players@.len() ==> {
        let a = pre.players@[pre.cur_player as int];
        let b = post.players@[pre.cur_player as int];
        &&& b.id == a.id
        &&& b.active == a.active
        &&& b.joined_in_round == a.joined_in_round
        &&& b.cards@ == a.cards@
        &&& (pre.cur_player != target ==> b.melds@ == a.melds@)
    })
    &&& (0 <= target < pre.players@.len() ==> {
        let a = pre.players@[target];
        let b = post.players@[target];
        &&& b.id == a.id
        &&& b.active == a.active
        &&& b.joined_in_round == a.joined_in_round
        &&& b.cards@ == a.cards@
        &&& b.melds@.len() == a.melds@.len()
        &&& (forall|j: int|
            0 <= j < a.melds@.len() ==> {
                &&& meld_cards(#[trigger] b.melds@[j]) == meld_cards(a.melds@[j])
                &&& (a.melds@[j] matches Meld::SetMeld(s) ==> b.melds@[j] matches Meld::SetMeld(s2)
                    && s2.set_rank == s.set_rank)
                &&& (a.melds@[j] matches Meld::RunMeld(r) ==> b.melds@[j] matches Meld::RunMeld(r2)
                    && r2.suit == r.suit)
            })
    })
}

/// The seat `t` steps after `cur` in wrapping order, for `t` at most the
/// table size.
pub open spec fn wrap_index(cur: int, t: int, n: int) -> int {
    if cur + t < n {
        cur + t
    } else {
        cur + t - n
    }
}

/// The next active seat after `cur` in wrapping order: the seat `t` steps on,
/// for the least `t` between 1 and the table size (so `cur` itself is the
/// last resort), or nothing when no seat is active.
fn find_next_active(players: &Vec<Player>, cur: usize) -> (r: Option<usize>)
    requires
        (cur as int) < players@.len(),
    ensures
        (match r {
            Some(i) => exists|t: int|
                {
                    &&& 1 <= t <= players@.len()
                    &&& i as int == wrap_index(cur as int, t, players@.len() as int)
                    &&& players@[i as int].active
                    &&& forall|u: int|
                        1 <= u < t ==> !players@[wrap_index(
                            cur as int,
                            u,
                            players@.len() as int,
                        )].active
                },
            None => forall|j: int| 0 <= j < players@.len() ==> !players@[j].active,
        }),
{
    let n = players.len();
    let mut s: usize = 0;
    while s < n
        invariant
            n == players@.len(),
            (cur as int) < n,
            s <= n,
            forall|u: int|
                1 <= u <= s ==> !players@[wrap_index(cur as int, u, n as int)].active,
        decreases n - s,
    {
        let t = s + 1;
        let idx = if cur >= n - t {
            cur - (n - t)
        } else {
            cur + t
        };
        proof {
            assert(idx as int == wrap_index(cur as int, t as int, n as int));
        }
        if players[idx].active {
            return Some(idx);
        }
        s = s + 1;
    }
    proof {
        assert forall|j: int| 0 <= j < players@.len() implies !players@[j].active by {
            let u = if j > cur as int {
                j - cur
            } else {
                j + players@.len() - cur
            };
            assert(1 <= u <= players@.len());
            assert(j == wrap_index(cur as int, u, players@.len() as int));
        }
    }
    None
}

/// Actions of the discard phase: the current player gives one card up, then
/// the turn passes on.
pub trait DiscardActions {
    /// Discards the current player's card at `card_i` onto the discard pile.
    fn discard(&mut self, card_i: usize) -> Result<TransitionResult, RummyError>;

    /// Moves to the next active player's draw phase, discarding the current
    /// player's first card automatically if none was discarded yet.
    fn to_next_player(&mut self) -> Result<TransitionResult, RummyError>;
}

/// The current player's card at `card_i` moved onto the top of the discard
/// pile; everything else but the phase tag is as before.
pub open spec fn discarded_card(pre: StandardRummy, post: StandardRummy, card_i: int) -> bool {
    let cur = pre.cur_player as int;
    let hand = pre.players@[cur].cards@;
    &&& pre.cur_player < pre.players@.len()
    &&& 0 <= card_i < hand.len()
    &&& post.config == pre.config
    &&& post.score.entries@ == pre.score.entries@
    &&& post.cur_round == pre.cur_round
    &&& post.cur_player == pre.cur_player
    &&& post.deck.config == pre.deck.config
    &&& post.deck.stock@ == pre.deck.stock@
    &&& post.deck.discard_pile@ == pre.deck.discard_pile@.push(hand[card_i])
    &&& post.players@.len() == pre.players@.len()
    &&& (forall|j: int|
        0 <= j < pre.players@.len() && j != cur ==> post.players@[j] == pre.players@[j])
    &&& {
        let a = pre.players@[cur];
        let b = post.players@[cur];
        &&& b.id == a.id
        &&& b.active == a.active
        &&& b.joined_in_round == a.joined_in_round
        &&& b.melds == a.melds
        &&& b.cards@ == hand.remove(card_i)
    }
}

impl DiscardActions for StandardRummy {
    /// Discards exactly one hand card, by index, onto the discard pile; legal
    /// only once per discard phase. Discarding the hand's last card wins the
    /// round.
    fn discard(&mut self, card_i: usize) -> (r: Result<TransitionResult, RummyError>)
        ensures
            (match r {
                Ok(tr) => {
                    &&& old(self).phase == (GamePhase::Discard { has_discarded: false })
                    &&& discarded_card(*old(self), *final(self), card_i as int)
                    &&& (tr is End <==> final(self).players@[old(
                        self,
                    ).cur_player as int].cards@.len() == 0)
                    &&& (tr is End ==> final(self).phase == (GamePhase::RoundEnd {
                        has_scored_round: false,
                    }))
                    &&& (tr is Next ==> final(self).phase == (GamePhase::Discard {
                        has_discarded: true,
                    }))
                },
                Err(e) => {
                    &&& game_unchanged(*old(self), *final(self))
                    &&& (e == RummyError::WrongPhase || e == RummyError::AlreadyDiscarded || e
                        == RummyError::PlayerOutOfBounds || e == RummyError::CardOutOfBounds)
                    &&& (e == RummyError::WrongPhase <==> !(old(self).phase is Discard))
                    &&& (e == RummyError::AlreadyDiscarded <==> old(self).phase == (
                    GamePhase::Discard { has_discarded: true }))
                    &&& (e == RummyError::PlayerOutOfBounds <==> old(self).phase == (
                    GamePhase::Discard { has_discarded: false }) && old(self).cur_player >= old(
                        self,
                    ).players@.len())
                    &&& (e == RummyError::CardOutOfBounds <==> old(self).phase == (
                    GamePhase::Discard { has_discarded: false }) && old(self).cur_player < old(
                        self,
                    ).players@.len() && (card_i as int) >= old(self).players@[old(
                        self,
                    ).cur_player as int].cards@.len())
                },
            }),
    {
        let has_discarded = match self.phase {
            GamePhase::Discard { has_discarded } => has_discarded,
            _ => {
                return Err(RummyError::WrongPhase);
            },
        };
        if has_discarded {
            return Err(RummyError::AlreadyDiscarded);
        }
        if self.cur_player >= self.players.len() {
            return Err(RummyError::PlayerOutOfBounds);
        }
        let cur = self.cur_player;
        if card_i >= self.players[cur].cards.len() {
            return Err(RummyError::CardOutOfBounds);
        }
        let mut p = self.players.remove(cur);
        let card = p.cards.remove(card_i);
        let emptied = p.cards.len() == 0;
        self.players.insert(cur, p);
        let mut moved: Vec<Card> = Vec::new();
        moved.push(card);
        self.deck.add_to_discard_pile(&mut moved);
        proof {
            assert(old(self).players@.remove(cur as int).insert(cur as int, self.players@[
                cur as int]) =~= old(self).players@.update(cur as int, self.players@[cur as int]));
            assert(old(self).deck.discard_pile@ + seq![card] =~= old(
                self,
            ).deck.discard_pile@.push(card));
        }
        if emptied {
            self.phase = GamePhase::RoundEnd { has_scored_round: false };
            Ok(TransitionResult::End)
        } else {
            self.phase = GamePhase::Discard { has_discarded: true };
            Ok(TransitionResult::Next)
        }
    }

    /// Advances to the next active player's draw phase; legal only in the
    /// discard phase. If nothing was discarded yet, the player's first hand
    /// card is discarded automatically, exactly once; discarding the last
    /// card this way ends the round instead, as does an empty hand or a table
    /// with no active player left.
    fn to_next_player(&mut self) -> (r: Result<TransitionResult, RummyError>)
        ensures
            (match r {
                Ok(tr) => {
                    let pre = *old(self);
                    let cur = pre.cur_player as int;
                    let auto = pre.phase == (GamePhase::Discard { has_discarded: false });
                    &&& pre.phase is Discard
                    &&& pre.cur_player < pre.players@.len()
                    &&& {
                        ||| {
                            // the automatic discard emptied the hand (or it was empty already)
                            &&& tr is End
                            &&& auto
                            &&& final(self).phase == (GamePhase::RoundEnd {
                                has_scored_round: false,
                            })
                            &&& (if pre.players@[cur].cards@.len() == 0 {
                                game_unchanged_but_phase(pre, *final(self))
                            } else {
                                pre.players@[cur].cards@.len() == 1 && discarded_card(
                                    pre,
                                    *final(self),
                                    0,
                                )
                            })
                        }
                        ||| {
                            // the turn moved on
                            &&& tr is Next
                            &&& final(self).phase == (GamePhase::Draw { has_drawn: false })
                            &&& (if auto {
                                pre.players@[cur].cards@.len() > 1 && discarded_card(
                                    pre,
                                    final(self).retag_cur(pre.cur_player).retag_phase(pre.phase),
                                    0,
                                )
                            } else {
                                game_unchanged_but_phase_and_cur(pre, *final(self))
                            })
                            &&& exists|t: int|
                                {
                                    &&& 1 <= t <= pre.players@.len()
                                    &&& final(self).cur_player as int == wrap_index(
                                        cur,
                                        t,
                                        pre.players@.len() as int,
                                    )
                                    &&& final(self).players@[final(self).cur_player as int].active
                                    &&& forall|u: int|
                                        1 <= u < t ==> !final(self).players@[wrap_index(
                                            cur,
                                            u,
                                            pre.players@.len() as int,
                                        )].active
                                }
                        }
                        ||| {
                            // nobody is active: the round ends
                            &&& tr is End
                            &&& final(self).phase == (GamePhase::RoundEnd {
                                has_scored_round: false,
                            })
                            &&& (forall|j: int|
                                0 <= j < final(self).players@.len()
                                    ==> !(final(self).players@[j].active))
                            &&& (if auto && pre.players@[cur].cards@.len() > 0 {
                                discarded_card(pre, final(self).retag_phase(pre.phase), 0)
                            } else {
                                game_unchanged_but_phase(pre, *final(self))
                            })
                        }
                    }
                },
                Err(e) => {
                    &&& game_unchanged(*old(self), *final(self))
                    &&& (e == RummyError::WrongPhase || e == RummyError::PlayerOutOfBounds)
                    &&& (e == RummyError::WrongPhase <==> !(old(self).phase is Discard))
                    &&& (e == RummyError::PlayerOutOfBounds <==> old(self).phase is Discard && old(
                        self,
                    ).cur_player >= old(self).players@.len())
                },
            }),
    {
        let has_discarded = match self.phase {
            GamePhase::Discard { has_discarded } => has_discarded,
            _ => {
                return Err(RummyError::WrongPhase);
            },
        };
        if self.cur_player >= self.players.len() {
            return Err(RummyError::PlayerOutOfBounds);
        }
        let cur = self.cur_player;
        if !has_discarded {
            if self.players[cur].cards.len() == 0 {
                self.phase = GamePhase::RoundEnd { has_scored_round: false };
                return Ok(TransitionResult::End);
            }
            let mut p = self.players.remove(cur);
            let card = p.cards.remove(0);
            let emptied = p.cards.len() == 0;
            self.players.insert(cur, p);
            let mut moved: Vec<Card> = Vec::new();
            moved.push(card);
            self.deck.add_to_discard_pile(&mut moved);
            proof {
                assert(old(self).players@.remove(cur as int).insert(cur as int, self.players@[
                    cur as int]) =~= old(self).players@.update(cur as int, self.players@[
                    cur as int]));
                assert(old(self).deck.discard_pile@ + seq![card] =~= old(
                    self,
                ).deck.discard_pile@.push(card));
            }
            if emptied {
                self.phase = GamePhase::RoundEnd { has_scored_round: false };
                return Ok(TransitionResult::End);
            }
        }
        match find_next_active(&self.players, cur) {
            Some(next) => {
                self.cur_player = next;
                self.phase = GamePhase::Draw { has_drawn: false };
                Ok(TransitionResult::Next)
            },
            None => {
                self.phase = GamePhase::RoundEnd { has_scored_round: false };
                Ok(TransitionResult::End)
            },
        }
    }
}

/// Nothing about the game changed except possibly the phase tag and whose
/// turn it is.
pub open spec fn game_unchanged_but_phase_and_cur(pre: StandardRummy, post: StandardRummy) -> bool {
    &&& post.config == pre.config
    &&& post.score.entries@ == pre.score.entries@
    &&& post.deck.config == pre.deck.config
    &&& post.deck.stock@ == pre.deck.stock@
    &&& post.deck.discard_pile@ == pre.deck.discard_pile@
    &&& post.players == pre.players
    &&& post.cur_round == pre.cur_round
}

impl StandardRummy {
    /// This game with the current-player index replaced; a spec-level helper
    /// for relating states across a turn change.
    pub open spec fn retag_cur(self, cur: usize) -> StandardRummy {
        StandardRummy {
            config: self.config,
            score: self.score,
            deck: self.deck,
            players: self.players,
            cur_round: self.cur_round,
            cur_player: cur,
            phase: self.phase,
        }
    }

    /// This game with the phase tag replaced; a spec-level helper for
    /// relating states across a phase change.
    pub open spec fn retag_phase(self, phase: GamePhase) -> StandardRummy {
        StandardRummy {
            config: self.config,
            score: self.score,
            deck: self.deck,
            players: self.players,
            cur_round: self.cur_round,
            cur_player: self.cur_player,
            phase,
        }
    }
}


/// Nothing about the game changed except possibly the phase tag.
pub open spec fn game_unchanged_but_phase(pre: StandardRummy, post: StandardRummy) -> bool {
    &&& post.config == pre.config
    &&& post.score.entries@ == pre.score.entries@
    &&& post.deck.config == pre.deck.config
    &&& post.deck.stock@ == pre.deck.stock@
    &&& post.deck.discard_pile@ == pre.deck.discard_pile@
    &&& post.players == pre.players
    &&& post.cur_round == pre.cur_round
    &&& post.cur_player == pre.cur_player
}

/// Whether `p` is scored at the end of a round: active players when quitting
/// forfeits the hand, players still holding cards otherwise.
pub open spec fn scoreable(p: Player, config: StandardRummyConfig) -> bool {
    (config.forfeit_cards_on_quit && p.active) || (!config.forfeit_cards_on_quit && p.cards@.len()
        > 0)
}

/// Executable twin of [`scoreable`].
pub fn is_scoreable(p: &Player, config: &StandardRummyConfig) -> (b: bool)
    ensures
        b == scoreable(*p, *config),
{
    if config.forfeit_cards_on_quit {
        p.active
    } else {
        p.cards.len() > 0
    }
}

/// The first seat from `k` on that is scoreable with an empty hand — the
/// round's winner — or the seat count when there is none.
pub open spec fn first_winner_from(players: Seq<Player>, config: StandardRummyConfig, k: int) -> int
    decreases players.len() - k,
{
    if k < 0 || k >= players.len() {
        players.len() as int
    } else if scoreable(players[k], config) && players[k].cards@.len() == 0 {
        k
    } else {
        first_winner_from(players, config, k + 1)
    }
}

/// The total clipped hand value of the scoreable players among the first `k`.
pub open spec fn total_value_upto(players: Seq<Player>, config: StandardRummyConfig, k: int) -> int
    decreases k,
{
    if k <= 0 {
        0
    } else {
        total_value_upto(players, config, k - 1) + (if scoreable(players[k - 1], config) {
            clipped_hand_value(players[k - 1].cards@)
        } else {
            0
        })
    }
}

/// The total value, clipped once more to a machine word.
pub open spec fn clipped_total_value(players: Seq<Player>, config: StandardRummyConfig) -> int {
    let t = total_value_upto(players, config, players.len() as int);
    if t > usize::MAX as int {
        usize::MAX as int
    } else {
        t
    }
}

/// What seat `k` scores for the round: under winner-only scoring, the round's
/// winner collects the total of every scoreable hand and the rest score
/// nothing; otherwise (and when no hand is empty) each scoreable player
/// scores their own hand's value.
pub open spec fn round_score_of(players: Seq<Player>, config: StandardRummyConfig, k: int) -> int {
    let w = first_winner_from(players, config, 0);
    if config.score_winner_only && w < players.len() {
        if k == w {
            clipped_total_value(players, config)
        } else {
            0
        }
    } else {
        clipped_hand_value(players[k].cards@)
    }
}

/// The score entries recorded for a round over the first `k` seats, in seat
/// order, one for each scoreable player.
pub open spec fn entries_upto(
    players: Seq<Player>,
    config: StandardRummyConfig,
    round: usize,
    k: int,
) -> Seq<ScoreEntry>
    decreases k,
{
    if k <= 0 {
        Seq::empty()
    } else {
        entries_upto(players, config, round, k - 1) + (if scoreable(players[k - 1], config) {
            seq![
                ScoreEntry {
                    round,
                    player_id: players[k - 1].id,
                    score: round_score_of(players, config, k - 1) as usize,
                },
            ]
        } else {
            Seq::empty()
        })
    }
}

/// The entries this round appends to the score sheet.
pub open spec fn round_entries(
    players: Seq<Player>,
    config: StandardRummyConfig,
    round: usize,
) -> Seq<ScoreEntry> {
    entries_upto(players, config, round, players.len() as int)
}

/// Scores are never negative and always fit a machine word.
proof fn lemma_total_value_bounds(players: Seq<Player>, config: StandardRummyConfig, k: int)
    ensures
        total_value_upto(players, config, k) >= 0,
    decreases k,
{
    if k > 0 {
        lemma_total_value_bounds(players, config, k - 1);
        lemma_hand_value_nonneg(players[k - 1].cards@);
    }
}

/// The round's winner, if any: the first scoreable seat with an empty hand.
fn find_first_winner(players: &Vec<Player>, config: &StandardRummyConfig) -> (r: Option<usize>)
    ensures
        (match r {
            Some(i) => (i as int) == first_winner_from(players@, *config, 0) && (i as int)
                < players@.len(),
            None => first_winner_from(players@, *config, 0) == players@.len(),
        }),
{
    let n = players.len();
    let mut k: usize = 0;
    while k < n
        invariant
            n == players@.len(),
            k <= n,
            first_winner_from(players@, *config, 0) == first_winner_from(
                players@,
                *config,
                k as int,
            ),
        decreases n - k,
    {
        if is_scoreable(&players[k], config) && players[k].cards.len() == 0 {
            return Some(k);
        }
        k = k + 1;
    }
    None
}

/// The total clipped hand value of every scoreable player, saturating at the
/// largest machine word.
fn total_scoreable_value(players: &Vec<Player>, config: &StandardRummyConfig) -> (v: usize)
    ensures
        v as int == clipped_total_value(players@, *config),
{
    let n = players.len();
    let mut acc: usize = 0;
    let mut k: usize = 0;
    while k < n
        invariant
            n == players@.len(),
            k <= n,
            acc as int == (if total_value_upto(players@, *config, k as int) > usize::MAX as int {
                usize::MAX as int
            } else {
                total_value_upto(players@, *config, k as int)
            }),
        decreases n - k,
    {
        proof {
            lemma_total_value_bounds(players@, *config, k as int);
            lemma_hand_value_nonneg(players@[k as int].cards@);
        }
        if is_scoreable(&players[k], config) {
            let v = hand_value_of(&players[k].cards);
            if acc > usize::MAX - v {
                acc = usize::MAX;
            } else {
                acc = acc + v;
            }
        }
        k = k + 1;
    }
    acc
}

/// Actions of the round-end phase: scores are recorded, then the next round
/// is dealt — or the game is brought to its end.
pub trait RoundEndActions {
    /// Computes and records this round's scores, once per round.
    fn calculate_score(&mut self) -> Result<(), RummyError>;

    /// Records the scores if that has not happened yet, then rebuilds the
    /// deck, clears and redeals every active player's hand, and starts the
    /// next round.
    fn to_next_round(&mut self) -> Result<(), RummyError>;

    /// Ends the game; no action is legal afterwards.
    fn end_game(&mut self) -> Result<(), RummyError>;
}

impl RoundEndActions for StandardRummy {
    /// Computes and records this round's per-player scores: under winner-only
    /// scoring the winner (the first scoreable empty hand) collects every
    /// scoreable hand's value and the others score nothing; otherwise each
    /// scoreable player is scored with their own hand's value. A flag makes
    /// the action idempotent: the second call in one round records nothing.
    fn calculate_score(&mut self) -> (r: Result<(), RummyError>)
        ensures
            (match r {
                Ok(()) => {
                    &&& old(self).phase is RoundEnd
                    &&& (old(self).phase == (GamePhase::RoundEnd { has_scored_round: true })
                        ==> game_unchanged(*old(self), *final(self)))
                    &&& (old(self).phase == (GamePhase::RoundEnd { has_scored_round: false })
                        ==> {
                        &&& final(self).score.entries@ == old(self).score.entries@
                            + round_entries(old(self).players@, old(self).config, old(
                            self,
                        ).cur_round)
                        &&& final(self).phase == (GamePhase::RoundEnd { has_scored_round: true })
                        &&& final(self).config == old(self).config
                        &&& final(self).deck == old(self).deck
                        &&& final(self).players == old(self).players
                        &&& final(self).cur_round == old(self).cur_round
                        &&& final(self).cur_player == old(self).cur_player
                    })
                },
                Err(e) => {
                    &&& game_unchanged(*old(self), *final(self))
                    &&& e == RummyError::WrongPhase
                    &&& !(old(self).phase is RoundEnd)
                },
            }),
    {
        let has_scored = match self.phase {
            GamePhase::RoundEnd { has_scored_round } => has_scored_round,
            _ => {
                return Err(RummyError::WrongPhase);
            },
        };
        if has_scored {
            return Ok(());
        }
        let winner = if self.config.score_winner_only {
            find_first_winner(&self.players, &self.config)
        } else {
            None
        };
        let total = total_scoreable_value(&self.players, &self.config);
        let n = self.players.len();
        let round = self.cur_round;
        let mut k: usize = 0;
        while k < n
            invariant
                n == self.players@.len(),
                k <= n,
                round == self.cur_round,
                self.config == old(self).config,
                self.players == old(self).players,
                self.deck == old(self).deck,
                self.cur_round == old(self).cur_round,
                self.cur_player == old(self).cur_player,
                self.phase == old(self).phase,
                total as int == clipped_total_value(self.players@, self.config),
                (match winner {
                    Some(w) => self.config.score_winner_only && (w as int) == first_winner_from(
                        self.players@,
                        self.config,
                        0,
                    ) && (w as int) < n,
                    None => !self.config.score_winner_only || first_winner_from(
                        self.players@,
                        self.config,
                        0,
                    ) == n,
                }),
                self.score.entries@ == old(self).score.entries@ + entries_upto(
                    self.players@,
                    self.config,
                    round,
                    k as int,
                ),
            decreases n - k,
        {
            if is_scoreable(&self.players[k], &self.config) {
                let score: usize = match winner {
                    Some(w) => {
                        if k == w {
                            total
                        } else {
                            0
                        }
                    },
                    None => hand_value_of(&self.players[k].cards),
                };
                let id = self.players[k].id;
                self.score.entries.push(ScoreEntry { round, player_id: id, score });
                proof {
                    lemma_total_value_bounds(self.players@, self.config, self.players@.len() as int);
                    lemma_hand_value_nonneg(self.players@[k as int].cards@);
                    assert(score as int == round_score_of(self.players@, self.config, k as int));
                    assert(old(self).score.entries@ + entries_upto(
                        self.players@,
                        self.config,
                        round,
                        k + 1,
                    ) =~= self.score.entries@);
                }
            } else {
                proof {
                    assert(old(self).score.entries@ + entries_upto(
                        self.players@,
                        self.config,
                        round,
                        k + 1,
                    ) =~= self.score.entries@);
                }
            }
            k = k + 1;
        }
        self.phase = GamePhase::RoundEnd { has_scored_round: true };
        Ok(())
    }

    /// Starts the next round: records the scores if that has not happened
    /// yet, rebuilds and reshuffles the deck from its configuration, clears
    /// every hand and meld, reactivates players who joined during the round
    /// that ended, deals every active player the table's count of cards (or
    /// as many as the stock can give everyone evenly), advances the round
    /// counter, and puts the first player in the draw phase.
    fn to_next_round(&mut self) -> (r: Result<(), RummyError>)
        ensures
            (match r {
                Ok(()) => {
                    let pre = *old(self);
                    let post = *final(self);
                    let scored = (if pre.phase == (GamePhase::RoundEnd {
                        has_scored_round: false,
                    }) {
                        pre.score.entries@ + round_entries(pre.players@, pre.config, pre.cur_round)
                    } else {
                        pre.score.entries@
                    });
                    let na = count_active(post.players@, post.players@.len() as int);
                    let gen = generated_cards(pre.deck.config);
                    let c = per_player_deal(pre.deck.config, na);
                    &&& pre.phase is RoundEnd
                    &&& post.phase == (GamePhase::Draw { has_drawn: false })
                    &&& post.config == pre.config
                    &&& post.deck.config == pre.deck.config
                    &&& post.cur_player == pre.cur_player
                    &&& post.cur_round == (if pre.cur_round < usize::MAX {
                        pre.cur_round + 1
                    } else {
                        pre.cur_round as int
                    })
                    &&& post.score.entries@ == scored
                    &&& post.players@.len() == pre.players@.len()
                    &&& post.deck.discard_pile@ == Seq::<Card>::empty()
                    &&& (forall|i: int|
                        0 <= i < pre.players@.len() ==> {
                            let a = pre.players@[i];
                            let b = #[trigger] post.players@[i];
                            &&& b.id == a.id
                            &&& b.joined_in_round == a.joined_in_round
                            &&& b.active == (a.active || a.joined_in_round == pre.cur_round)
                            &&& b.melds@ == Seq::<Meld>::empty()
                            &&& b.cards@.len() == (if b.active {
                                c
                            } else {
                                0
                            })
                        })
                    &&& exists|fresh: Seq<Card>|
                        {
                            &&& #[trigger] fresh.to_multiset() == gen.to_multiset()
                            &&& (pre.deck.config.shuffle_seed matches Some(seed) ==> fresh
                                == seeded_shuffle(gen, seed))
                            &&& post.deck.stock@ == fresh.take(fresh.len() - c * na)
                            &&& (forall|i: int|
                                0 <= i < post.players@.len() && (#[trigger] post.players@[i]).active
                                    ==> post.players@[i].cards@ == fresh.subrange(
                                    fresh.len() - c * (count_active(post.players@, i) + 1),
                                    fresh.len() - c * count_active(post.players@, i),
                                ))
                        }
                },
                Err(e) => {
                    &&& game_unchanged(*old(self), *final(self))
                    &&& e == RummyError::WrongPhase
                    &&& !(old(self).phase is RoundEnd)
                },
            }),
    {
        let has_scored = match self.phase {
            GamePhase::RoundEnd { has_scored_round } => has_scored_round,
            _ => {
                return Err(RummyError::WrongPhase);
            },
        };
        if !has_scored {
            let _scored = self.calculate_score();
        }
        self.deck.reset();
        let ghost fresh = self.deck.stock@;
        let ghost scored_entries = self.score.entries@;
        let n = self.players.len();
        let round = self.cur_round;
        let mut num_active: usize = 0;
        let mut i: usize = 0;
        while i < n
            invariant
                n == self.players@.len(),
                i <= n,
                self.config == old(self).config,
                self.score.entries@ == scored_entries,
                self.cur_round == old(self).cur_round,
                self.cur_player == old(self).cur_player,
                round == self.cur_round,
                self.deck.config == old(self).deck.config,
                self.deck.stock@ == fresh,
                self.deck.discard_pile@ == Seq::<Card>::empty(),
                num_active as int == count_active(self.players@, i as int),
                num_active <= i,
                forall|j: int| i <= j < n ==> self.players@[j] == old(self).players@[j],
                forall|j: int|
                    0 <= j < i ==> {
                        let a = old(self).players@[j];
                        let b = #[trigger] self.players@[j];
                        &&& b.id == a.id
                        &&& b.joined_in_round == a.joined_in_round
                        &&& b.active == (a.active || a.joined_in_round == round)
                        &&& b.melds@ == Seq::<Meld>::empty()
                        &&& b.cards@ == Seq::<Card>::empty()
                    },
            decreases n - i,
        {
            let ghost prev_players = self.players@;
            let id = self.players[i].id;
            let joined = self.players[i].joined_in_round;
            let active = self.players[i].active || joined == round;
            self.players.set(i, Player::new(id, active, joined));
            proof {
                lemma_count_active_prefix(prev_players, self.players@, i as int);
            }
            if active {
                num_active = num_active + 1;
            }
            i = i + 1;
        }
        let packs = self.deck.config.pack_count;
        let base = get_cards_to_deal(num_active, packs);
        let stock_len = self.deck.stock.len();
        proof {
            broadcast use vstd::seq_lib::group_to_multiset_ensures;

            assert(fresh.to_multiset().len() == fresh.len());
            assert(generated_cards(self.deck.config).to_multiset().len() == generated_cards(
                self.deck.config,
            ).len());
        }
        let c: usize = if num_active == 0 {
            0
        } else {
            let cap = stock_len / num_active;
            if base <= cap {
                base
            } else {
                cap
            }
        };
        proof {
            assert(count_active(self.players@, n as int) == num_active);
            assert(c * num_active <= stock_len) by (nonlinear_arith)
                requires
                    num_active > 0 ==> c as int <= stock_len as int / num_active as int,
                    num_active == 0 ==> c == 0,
                    c >= 0,
                    num_active >= 0,
                    stock_len >= 0,
            ;
            assert(c as int == per_player_deal(self.deck.config, num_active as int));
        }
        let ghost after_reset_players = self.players@;
        let mut dealt: usize = 0;
        let mut i2: usize = 0;
        while i2 < n
            invariant
                n == self.players@.len(),
                i2 <= n,
                self.config == old(self).config,
                self.score.entries@ == scored_entries,
                self.cur_round == old(self).cur_round,
                self.cur_player == old(self).cur_player,
                self.players@.len() == after_reset_players.len(),
                dealt as int == count_active(self.players@, i2 as int),
                count_active(self.players@, n as int) == num_active,
                c * num_active <= stock_len,
                fresh.len() == stock_len,
                self.deck.config == old(self).deck.config,
                self.deck.discard_pile@ == Seq::<Card>::empty(),
                self.deck.stock@ == fresh.take(fresh.len() - c * dealt),
                forall|j: int|
                    i2 <= j < n ==> #[trigger] self.players@[j] == after_reset_players[j],
                forall|j: int|
                    0 <= j < n ==> {
                        let a = after_reset_players[j];
                        let b = #[trigger] self.players@[j];
                        &&& b.id == a.id
                        &&& b.joined_in_round == a.joined_in_round
                        &&& b.active == a.active
                        &&& b.melds@ == a.melds@
                    },
                forall|j: int|
                    0 <= j < i2 && (#[trigger] self.players@[j]).active ==> self.players@[j].cards@
                        == fresh.subrange(
                        fresh.len() - c * (count_active(self.players@, j) + 1),
                        fresh.len() - c * count_active(self.players@, j),
                    ),
                forall|j: int|
                    0 <= j < n && !(#[trigger] self.players@[j]).active ==> self.players@[j].cards@
                        == Seq::<Card>::empty(),
            decreases n - i2,
        {
            if self.players[i2].active {
                proof {
                    lemma_count_active_mono(self.players@, i2 + 1, n as int);
                    assert(count_active(self.players@, i2 + 1) == dealt + 1);
                    assert(c * ((dealt + 1) as int) == c * (dealt as int) + c) by (nonlinear_arith);
                    assert(c * (dealt + 1) <= c * num_active) by (nonlinear_arith)
                        requires
                            c >= 0,
                            dealt + 1 <= num_active,
                    ;
                }
                let cards = match self.deck.draw(c) {
                    Ok(cards) => cards,
                    Err(_) => {
                        // unreachable: the deal count is capped so the stock
                        // serves every active player
                        proof {
                            assert(false);
                        }
                        Vec::new()
                    },
                };
                let ghost prev_players = self.players@;
                let mut p = self.players.remove(i2);
                p.cards = cards;
                self.players.insert(i2, p);
                proof {
                    assert(self.players@ =~= prev_players.update(
                        i2 as int,
                        self.players@[i2 as int],
                    ));
                    assert(forall|j: int|
                        0 <= j < n ==> (#[trigger] self.players@[j]).active
                            == prev_players[j].active);
                    assert(forall|x: int|
                        0 <= x <= n ==> count_active(self.players@, x) == count_active(
                            prev_players,
                            x,
                        )) by {
                        assert forall|x: int| 0 <= x <= n implies count_active(self.players@, x)
                            == count_active(prev_players, x) by {
                            lemma_count_active_prefix(self.players@, prev_players, x);
                        }
                    }
                    assert(fresh.take(fresh.len() - c * (dealt as int)).skip(
                        fresh.len() - c * (dealt as int) - (c as int),
                    ) =~= fresh.subrange(
                        fresh.len() - c * ((dealt + 1) as int),
                        fresh.len() - c * (dealt as int),
                    ));
                    assert(fresh.take(fresh.len() - c * (dealt as int)).take(
                        fresh.len() - c * (dealt as int) - (c as int),
                    ) =~= fresh.take(fresh.len() - c * ((dealt + 1) as int)));
                }
                dealt = dealt + 1;
            }
            i2 = i2 + 1;
        }
        proof {
            assert forall|j: int|
                0 <= j < n && (#[trigger] self.players@[j]).active implies self.players@[
                j
            ].cards@.len() == c as int by {
                lemma_count_active_nonneg(self.players@, j);
                lemma_count_active_mono(self.players@, j + 1, n as int);
                let ord = count_active(self.players@, j);
                assert(count_active(self.players@, j + 1) == ord + 1);
                assert(c * (ord + 1) <= c * (num_active as int)) by (nonlinear_arith)
                    requires
                        c >= 0,
                        ord + 1 <= num_active,
                ;
                assert(c * ord >= 0) by (nonlinear_arith)
                    requires
                        c >= 0,
                        ord >= 0,
                ;
                assert(c * (ord + 1) == c * ord + c) by (nonlinear_arith);
            }
        }
        self.cur_round = if self.cur_round < usize::MAX {
            self.cur_round + 1
        } else {
            self.cur_round
        };
        self.phase = GamePhase::Draw { has_drawn: false };
        Ok(())
    }

    /// Ends the game from the round-end phase; afterwards no action is legal.
    fn end_game(&mut self) -> (r: Result<(), RummyError>)
        ensures
            (match r {
                Ok(()) => {
                    &&& old(self).phase is RoundEnd
                    &&& game_unchanged_but_phase(*old(self), *final(self))
                    &&& final(self).phase == GamePhase::GameEnd
                },
                Err(e) => {
                    &&& game_unchanged(*old(self), *final(self))
                    &&& e == RummyError::WrongPhase
                    &&& !(old(self).phase is RoundEnd)
                },
            }),
    {
        if !matches!(self.phase, GamePhase::RoundEnd { .. }) {
            return Err(RummyError::WrongPhase);
        }
        self.phase = GamePhase::GameEnd;
        Ok(())
    }
}

/// How many cards each active player is dealt at a round start: the table's
/// count, capped so that the fresh stock can serve every active player
/// evenly.
pub open spec fn per_player_deal(deck_config: DeckConfig, num_active: int) -> int {
    if num_active == 0 {
        0
    } else {
        let base = deal_count(num_active, deck_config.pack_count as int);
        let cap = generated_cards(deck_config).len() as int / num_active;
        if base <= cap {
            base
        } else {
            cap
        }
    }
}


/// How many players are active.
fn count_active_players(players: &Vec<Player>) -> (c: usize)
    ensures
        c as int == count_active(players@, players@.len() as int),
        c <= players@.len(),
{
    let n = players.len();
    let mut c: usize = 0;
    let mut k: usize = 0;
    while k < n
        invariant
            n == players@.len(),
            k <= n,
            c as int == count_active(players@, k as int),
            c <= k,
        decreases n - k,
    {
        if players[k].active {
            c = c + 1;
        }
        k = k + 1;
    }
    c
}

/// Cross-cutting player-management actions, legal in every phase but the
/// game's end.
pub trait PlayableActions {
    /// Seats a new player, at `index` or at the table's end.
    fn add_player(&mut self, player_id: usize, index: Option<usize>) -> Result<(), RummyError>;

    /// Marks a non-current player as having quit; the round ends if at most
    /// one active player is left.
    fn quit_player(&mut self, player_i: usize) -> Result<TransitionResult, RummyError>;

    /// Marks the current player as having quit and advances to the next
    /// active player's draw phase.
    fn quit_current_player(&mut self) -> Result<(), RummyError>;

    /// Moves a card within a player's hand, clamping the destination to the
    /// hand's end.
    fn move_card_in_hand(
        &mut self,
        player_i: usize,
        old_pos: usize,
        new_pos: usize,
    ) -> Result<(), RummyError>;
}

impl PlayableActions for StandardRummy {
    /// Seats a new player at `index` (or at the table's end when `index` is
    /// absent or past it), inactive until the round that is under way ends;
    /// a duplicate id is rejected. Legal in every phase but the game's end.
    fn add_player(&mut self, player_id: usize, index: Option<usize>) -> (r: Result<
        (),
        RummyError,
    >)
        ensures
            (match r {
                Ok(()) => {
                    let pos = (match index {
                        Some(ix) => if ix <= old(self).players@.len() {
                            ix as int
                        } else {
                            old(self).players@.len() as int
                        },
                        None => old(self).players@.len() as int,
                    });
                    &&& !(old(self).phase is GameEnd)
                    &&& (forall|j: int|
                        0 <= j < old(self).players@.len() ==> (#[trigger] old(
                            self,
                        ).players@[j]).id != player_id)
                    &&& final(self).config == old(self).config
                    &&& final(self).score.entries@ == old(self).score.entries@
                    &&& final(self).deck == old(self).deck
                    &&& final(self).cur_round == old(self).cur_round
                    &&& final(self).cur_player == old(self).cur_player
                    &&& final(self).phase == old(self).phase
                    &&& final(self).players@.len() == old(self).players@.len() + 1
                    &&& (forall|j: int| 0 <= j < pos ==> final(self).players@[j] == old(
                        self,
                    ).players@[j])
                    &&& (forall|j: int|
                        pos < j < final(self).players@.len() ==> final(self).players@[j] == old(
                            self,
                        ).players@[j - 1])
                    &&& {
                        let p = final(self).players@[pos];
                        &&& p.id == player_id
                        &&& !p.active
                        &&& p.joined_in_round == old(self).cur_round
                        &&& p.cards@ == Seq::<Card>::empty()
                        &&& p.melds@ == Seq::<Meld>::empty()
                    }
                },
                Err(e) => {
                    &&& game_unchanged(*old(self), *final(self))
                    &&& (e == RummyError::WrongPhase || e == RummyError::DuplicatePlayerId)
                    &&& (e == RummyError::WrongPhase <==> old(self).phase is GameEnd)
                    &&& (e == RummyError::DuplicatePlayerId <==> !(old(self).phase is GameEnd)
                        && (exists|j: int|
                        0 <= j < old(self).players@.len() && (#[trigger] old(
                            self,
                        ).players@[j]).id == player_id))
                },
            }),
    {
        if matches!(self.phase, GamePhase::GameEnd) {
            return Err(RummyError::WrongPhase);
        }
        let n = self.players.len();
        let mut k: usize = 0;
        while k < n
            invariant
                n == self.players@.len(),
                k <= n,
                self == old(self),
                !(self.phase is GameEnd),
                forall|j: int| 0 <= j < k ==> (#[trigger] self.players@[j]).id != player_id,
            decreases n - k,
        {
            if self.players[k].id == player_id {
                proof {
                    assert((old(self).players@[k as int]).id == player_id);
                }
                return Err(RummyError::DuplicatePlayerId);
            }
            k = k + 1;
        }
        let player = Player::new(player_id, false, self.cur_round);
        match index {
            Some(ix) => {
                if ix <= n {
                    self.players.insert(ix, player);
                } else {
                    self.players.push(player);
                    proof {
                        assert(self.players@ =~= old(self).players@.insert(
                            old(self).players@.len() as int,
                            self.players@.last(),
                        ));
                    }
                }
            },
            None => {
                self.players.push(player);
                proof {
                    assert(self.players@ =~= old(self).players@.insert(
                        old(self).players@.len() as int,
                        self.players@.last(),
                    ));
                }
            },
        }
        Ok(())
    }

    /// Marks the player at `player_i` — never the current player — as having
    /// quit: the seat stays, inactive, and the round ends when at most one
    /// active player is left. Legal in every phase but the game's end.
    fn quit_player(&mut self, player_i: usize) -> (r: Result<TransitionResult, RummyError>)
        ensures
            (match r {
                Ok(tr) => {
                    &&& !(old(self).phase is GameEnd)
                    &&& player_i != old(self).cur_player
                    &&& (player_i as int) < old(self).players@.len()
                    &&& final(self).config == old(self).config
                    &&& final(self).score.entries@ == old(self).score.entries@
                    &&& final(self).deck == old(self).deck
                    &&& final(self).cur_round == old(self).cur_round
                    &&& final(self).cur_player == old(self).cur_player
                    &&& final(self).players@.len() == old(self).players@.len()
                    &&& (forall|j: int|
                        0 <= j < old(self).players@.len() && j != player_i ==> final(self).players@[j] == old(self).players@[j])
                    &&& {
                        let a = old(self).players@[player_i as int];
                        let b = final(self).players@[player_i as int];
                        &&& b.id == a.id
                        &&& !b.active
                        &&& b.joined_in_round == a.joined_in_round
                        &&& b.cards == a.cards
                        &&& b.melds == a.melds
                    }
                    &&& (tr is End <==> count_active(
                        final(self).players@,
                        final(self).players@.len() as int,
                    ) <= 1)
                    &&& (tr is End ==> final(self).phase == (GamePhase::RoundEnd {
                        has_scored_round: false,
                    }))
                    &&& (tr is Next ==> final(self).phase == old(self).phase)
                },
                Err(e) => {
                    &&& game_unchanged(*old(self), *final(self))
                    &&& (e == RummyError::WrongPhase || e == RummyError::CannotQuitCurrentPlayer
                        || e == RummyError::PlayerOutOfBounds)
                    &&& (e == RummyError::WrongPhase <==> old(self).phase is GameEnd)
                    &&& (e == RummyError::CannotQuitCurrentPlayer <==> !(old(
                        self,
                    ).phase is GameEnd) && player_i == old(self).cur_player)
                    &&& (e == RummyError::PlayerOutOfBounds <==> !(old(self).phase is GameEnd)
                        && player_i != old(self).cur_player && (player_i as int) >= old(
                        self,
                    ).players@.len())
                },
            }),
    {
        if matches!(self.phase, GamePhase::GameEnd) {
            return Err(RummyError::WrongPhase);
        }
        if player_i == self.cur_player {
            return Err(RummyError::CannotQuitCurrentPlayer);
        }
        if player_i >= self.players.len() {
            return Err(RummyError::PlayerOutOfBounds);
        }
        let mut p = self.players.remove(player_i);
        p.active = false;
        self.players.insert(player_i, p);
        proof {
            assert(old(self).players@.remove(player_i as int).insert(
                player_i as int,
                self.players@[player_i as int],
            ) =~= old(self).players@.update(player_i as int, self.players@[player_i as int]));
        }
        let actives = count_active_players(&self.players);
        if actives <= 1 {
            self.phase = GamePhase::RoundEnd { has_scored_round: false };
            Ok(TransitionResult::End)
        } else {
            Ok(TransitionResult::Next)
        }
    }

    /// Marks the current player as having quit and advances to the next
    /// active player's draw phase (with the draw already taken as far as the
    /// automatic transition is concerned); the round ends when nobody active
    /// is left. Legal in every phase but the game's end.
    fn quit_current_player(&mut self) -> (r: Result<(), RummyError>)
        ensures
            (match r {
                Ok(()) => {
                    let pre = *old(self);
                    let cur = pre.cur_player as int;
                    &&& !(pre.phase is GameEnd)
                    &&& pre.cur_player < pre.players@.len()
                    &&& final(self).config == pre.config
                    &&& final(self).score.entries@ == pre.score.entries@
                    &&& final(self).deck == pre.deck
                    &&& final(self).cur_round == pre.cur_round
                    &&& final(self).players@.len() == pre.players@.len()
                    &&& (forall|j: int|
                        0 <= j < pre.players@.len() && j != cur ==> final(self).players@[j]
                            == pre.players@[j])
                    &&& {
                        let a = pre.players@[cur];
                        let b = final(self).players@[cur];
                        &&& b.id == a.id
                        &&& !b.active
                        &&& b.joined_in_round == a.joined_in_round
                        &&& b.cards == a.cards
                        &&& b.melds == a.melds
                    }
                    &&& {
                        ||| {
                            &&& final(self).phase == (GamePhase::Draw { has_drawn: true })
                            &&& exists|t: int|
                                {
                                    &&& 1 <= t <= pre.players@.len()
                                    &&& final(self).cur_player as int == wrap_index(
                                        cur,
                                        t,
                                        pre.players@.len() as int,
                                    )
                                    &&& final(self).players@[final(self).cur_player as int].active
                                    &&& forall|u: int|
                                        1 <= u < t ==> !final(self).players@[wrap_index(
                                            cur,
                                            u,
                                            pre.players@.len() as int,
                                        )].active
                                }
                        }
                        ||| {
                            &&& final(self).phase == (GamePhase::RoundEnd {
                                has_scored_round: false,
                            })
                            &&& final(self).cur_player == pre.cur_player
                            &&& (forall|j: int|
                                0 <= j < final(self).players@.len() ==> !(final(self).players@[j].active))
                        }
                    }
                },
                Err(e) => {
                    &&& game_unchanged(*old(self), *final(self))
                    &&& (e == RummyError::WrongPhase || e == RummyError::PlayerOutOfBounds)
                    &&& (e == RummyError::WrongPhase <==> old(self).phase is GameEnd)
                    &&& (e == RummyError::PlayerOutOfBounds <==> !(old(self).phase is GameEnd)
                        && old(self).cur_player >= old(self).players@.len())
                },
            }),
    {
        if matches!(self.phase, GamePhase::GameEnd) {
            return Err(RummyError::WrongPhase);
        }
        if self.cur_player >= self.players.len() {
            return Err(RummyError::PlayerOutOfBounds);
        }
        let cur = self.cur_player;
        let mut p = self.players.remove(cur);
        p.active = false;
        self.players.insert(cur, p);
        proof {
            assert(old(self).players@.remove(cur as int).insert(cur as int, self.players@[
                cur as int]) =~= old(self).players@.update(cur as int, self.players@[cur as int]));
        }
        match find_next_active(&self.players, cur) {
            Some(next) => {
                self.cur_player = next;
                self.phase = GamePhase::Draw { has_drawn: true };
                Ok(())
            },
            None => {
                self.phase = GamePhase::RoundEnd { has_scored_round: false };
                Ok(())
            },
        }
    }

    /// Moves the card at `old_pos` of `player_i`'s hand to `new_pos`,
    /// clamping `new_pos` to the hand's end; the rest of the hand keeps its
    /// order. Legal in every phase but the game's end.
    fn move_card_in_hand(&mut self, player_i: usize, old_pos: usize, new_pos: usize) -> (r: Result<
        (),
        RummyError,
    >)
        ensures
            (match r {
                Ok(()) => {
                    let hand = old(self).players@[player_i as int].cards@;
                    let dest = (if (new_pos as int) < hand.len() - 1 {
                        new_pos as int
                    } else {
                        hand.len() - 1
                    });
                    &&& !(old(self).phase is GameEnd)
                    &&& (player_i as int) < old(self).players@.len()
                    &&& (old_pos as int) < hand.len()
                    &&& final(self).config == old(self).config
                    &&& final(self).score.entries@ == old(self).score.entries@
                    &&& final(self).deck == old(self).deck
                    &&& final(self).cur_round == old(self).cur_round
                    &&& final(self).cur_player == old(self).cur_player
                    &&& final(self).phase == old(self).phase
                    &&& final(self).players@.len() == old(self).players@.len()
                    &&& (forall|j: int|
                        0 <= j < old(self).players@.len() && j != player_i ==> final(self).players@[j] == old(self).players@[j])
                    &&& {
                        let a = old(self).players@[player_i as int];
                        let b = final(self).players@[player_i as int];
                        &&& b.id == a.id
                        &&& b.active == a.active
                        &&& b.joined_in_round == a.joined_in_round
                        &&& b.melds == a.melds
                        &&& b.cards@ == hand.remove(old_pos as int).insert(
                            dest,
                            hand[old_pos as int],
                        )
                    }
                },
                Err(e) => {
                    &&& game_unchanged(*old(self), *final(self))
                    &&& (e == RummyError::WrongPhase || e == RummyError::PlayerOutOfBounds || e
                        == RummyError::CardOutOfBounds)
                    &&& (e == RummyError::WrongPhase <==> old(self).phase is GameEnd)
                    &&& (e == RummyError::PlayerOutOfBounds <==> !(old(self).phase is GameEnd)
                        && (player_i as int) >= old(self).players@.len())
                    &&& (e == RummyError::CardOutOfBounds <==> !(old(self).phase is GameEnd) && (
                    player_i as int) < old(self).players@.len() && (old_pos as int) >= old(
                        self,
                    ).players@[player_i as int].cards@.len())
                },
            }),
    {
        if matches!(self.phase, GamePhase::GameEnd) {
            return Err(RummyError::WrongPhase);
        }
        if player_i >= self.players.len() {
            return Err(RummyError::PlayerOutOfBounds);
        }
        let hand_len = self.players[player_i].cards.len();
        if old_pos >= hand_len {
            return Err(RummyError::CardOutOfBounds);
        }
        let dest = if new_pos < hand_len - 1 {
            new_pos
        } else {
            hand_len - 1
        };
        let mut p = self.players.remove(player_i);
        let card = p.cards.remove(old_pos);
        p.cards.insert(dest, card);
        self.players.insert(player_i, p);
        proof {
            assert(old(self).players@.remove(player_i as int).insert(
                player_i as int,
                self.players@[player_i as int],
            ) =~= old(self).players@.update(player_i as int, self.players@[player_i as int]));
        }
        Ok(())
    }
}


} // verus!
