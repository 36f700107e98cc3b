//! The deck: configuration, card generation, seeded shuffling, and the stock
//! and discard piles.
//!
//! Shuffling is a Fisher-Yates pass driven by a xorshift step function, so a
//! seeded shuffle is a mathematical function of the seed and the cards alone;
//! the unseeded paths draw one fresh seed from the process's entropy source
//! and run the same verified pass.

use vstd::prelude::*;
use vstd::seq_lib::*;
use crate::suit_rank::{Rank, Suit, rank_of_val, suit_of_val, rank_from_value, suit_from_value};
use crate::card::Card;
use crate::error::RummyError;

verus! {

/// Configurable parameters for a deck:
/// - `shuffle_seed`: optional seed for deterministically shuffling the deck
/// - `pack_count`: number of card packs to include in the deck
/// - `use_joker`: whether to add jokers and use them as wildcards (2 per pack)
/// - `high_rank`: whether to override the highest rank (default being King)
/// - `wildcard_rank`: whether to have a wildcard rank (mutually exclusive with
///   `use_joker`)
#[derive(Clone, Copy, Debug)]
pub struct DeckConfig {
    pub shuffle_seed: Option<u64>,
    pub pack_count: usize,
    pub use_joker: bool,
    pub high_rank: Option<Rank>,
    pub wildcard_rank: Option<Rank>,
}

impl DeckConfig {
    /// The default configuration: one pack, no jokers, no overrides, and a
    /// nondeterministic shuffle.
    pub fn new() -> (c: DeckConfig)
        ensures
            c == (DeckConfig {
                shuffle_seed: None,
                pack_count: 1,
                use_joker: false,
                high_rank: None,
                wildcard_rank: None,
            }),
    {
        DeckConfig {
            shuffle_seed: None,
            pack_count: 1,
            use_joker: false,
            high_rank: None,
            wildcard_rank: None,
        }
    }
}

impl PartialEq for DeckConfig {
    fn eq(&self, other: &Self) -> (r: bool) {
        let seed_eq = match (self.shuffle_seed, other.shuffle_seed) {
            (None, None) => true,
            (Some(a), Some(b)) => a == b,
            _ => false,
        };
        let high_eq = match (self.high_rank, other.high_rank) {
            (None, None) => true,
            (Some(a), Some(b)) => a == b,
            _ => false,
        };
        let wild_eq = match (self.wildcard_rank, other.wildcard_rank) {
            (None, None) => true,
            (Some(a), Some(b)) => a == b,
            _ => false,
        };
        seed_eq && high_eq && wild_eq && self.pack_count == other.pack_count
            && self.use_joker == other.use_joker
    }
}

impl vstd::std_specs::cmp::PartialEqSpecImpl for DeckConfig {
    open spec fn obeys_eq_spec() -> bool {
        true
    }

    open spec fn eq_spec(&self, other: &Self) -> bool {
        *self == *other
    }
}

/// `config` as [`Deck::new`] coerces it: at least one pack, and jokers turned
/// off when a wildcard rank is set.
pub open spec fn normalize_config(config: DeckConfig) -> DeckConfig {
    DeckConfig {
        shuffle_seed: config.shuffle_seed,
        pack_count: if config.pack_count < 1 {
            1
        } else {
            config.pack_count
        },
        use_joker: config.use_joker && config.wildcard_rank is None,
        high_rank: config.high_rank,
        wildcard_rank: config.wildcard_rank,
    }
}

/// The joker card.
pub open spec fn joker_card() -> Card {
    Card { rank: Rank::Joker, suit: Suit::Joker }
}

/// Card `i` of the 52 ordinary cards of one pack, in generation order:
/// rank-major, so that a freshly generated pack is ascending under the default
/// ordering.
pub open spec fn pack_card(i: int) -> Card {
    Card { rank: rank_of_val(i / 4), suit: suit_of_val(i % 4) }
}

/// One full pack: the 52 ordinary cards, plus two jokers when `use_joker`.
pub open spec fn one_pack(use_joker: bool) -> Seq<Card> {
    let base = Seq::new(52, |i: int| pack_card(i));
    if use_joker {
        base.push(joker_card()).push(joker_card())
    } else {
        base
    }
}

/// `n` full packs, one after the other.
pub open spec fn packs(n: nat, use_joker: bool) -> Seq<Card>
    decreases n,
{
    if n == 0 {
        Seq::empty()
    } else {
        packs((n - 1) as nat, use_joker) + one_pack(use_joker)
    }
}

/// Every card a deck with configuration `config` generates, in generation
/// order (before any shuffle).
pub open spec fn generated_cards(config: DeckConfig) -> Seq<Card> {
    packs(config.pack_count as nat, config.use_joker)
}

/// One step of the xorshift sequence that drives the shuffle. Zero is its
/// fixed point, so a zero seed leaves a deck unshuffled.
pub open spec fn next_state(s: u64) -> u64 {
    let a = s ^ (s << 13);
    let b = a ^ (a >> 7);
    b ^ (b << 17)
}

/// Executable twin of [`next_state`].
pub fn next_state_value(s: u64) -> (r: u64)
    ensures
        r == next_state(s),
{
    let a = s ^ (s << 13);
    let b = a ^ (a >> 7);
    b ^ (b << 17)
}

/// The rest of the Fisher-Yates pass over `s`, starting at position `i` with
/// generator state `st`: position `i` is swapped with a position drawn from
/// `st`'s successor, and the pass moves right.
pub open spec fn shuffled_from(s: Seq<Card>, st: u64, i: int) -> Seq<Card>
    decreases s.len() - i,
{
    if i < 0 || i + 1 >= s.len() {
        s
    } else {
        let st2 = next_state(st);
        let j = i + (st2 as int) % (s.len() - i);
        shuffled_from(s.update(i, s[j]).update(j, s[i]), st2, i + 1)
    }
}

/// The deterministic shuffle of `s` under `seed`.
pub open spec fn seeded_shuffle(s: Seq<Card>, seed: u64) -> Seq<Card> {
    shuffled_from(s, seed, 0)
}

/// Zero is a fixed point of the xorshift step, so a zero seed never swaps
/// anything: the shuffle leaves the cards in generation order.
pub proof fn lemma_zero_seed_leaves_order(s: Seq<Card>)
    ensures
        seeded_shuffle(s, 0) == s,
{
    assert(next_state(0) == 0) by (bit_vector);
    lemma_zero_state_shuffle(s, 0);
}

/// The rest of a zero-state Fisher-Yates pass moves nothing.
proof fn lemma_zero_state_shuffle(s: Seq<Card>, i: int)
    ensures
        shuffled_from(s, 0, i) == s,
    decreases s.len() - i,
{
    assert(next_state(0) == 0) by (bit_vector);
    if !(i < 0 || i + 1 >= s.len()) {
        let j = i + (0int % (s.len() - i));
        assert(j == i);
        assert(s.update(i, s[j]).update(j, s[i]) =~= s);
        lemma_zero_state_shuffle(s.update(i, s[j]).update(j, s[i]), i + 1);
    }
}

/// Swapping two positions of a sequence does not change its multiset of
/// elements.
proof fn lemma_swap_preserves_multiset(s: Seq<Card>, i: int, j: int)
    requires
        0 <= i < s.len(),
        0 <= j < s.len(),
    ensures
        s.update(i, s[j]).update(j, s[i]).to_multiset() == s.to_multiset(),
{
    broadcast use vstd::seq_lib::to_multiset_update;
    broadcast use vstd::seq_lib::group_to_multiset_ensures;
    broadcast use vstd::multiset::group_multiset_axioms;

    if i == j {
        assert(s.update(i, s[j]).update(j, s[i]) =~= s);
    } else {
        let s1 = s.update(i, s[j]);
        assert(s1[j] == s[j]);
        assert(s.contains(s[i]) && s.contains(s[j]));
        assert(s.to_multiset().count(s[i]) > 0 && s.to_multiset().count(s[j]) > 0);
        assert(s1.to_multiset() == s.to_multiset().insert(s[j]).remove(s[i]));
        assert(s1.update(j, s[i]).to_multiset() == s1.to_multiset().insert(s[i]).remove(s1[j]));
        assert(s1.update(j, s[i]).to_multiset() =~= s.to_multiset());
    }
}

/// Shuffles `cards` in place, deterministically from `seed`: the result is
/// [`seeded_shuffle`] of the input, a permutation of it.
pub fn shuffle_cards(cards: &mut Vec<Card>, seed: u64)
    ensures
        final(cards)@ == seeded_shuffle(old(cards)@, seed),
        final(cards)@.to_multiset() == old(cards)@.to_multiset(),
{
    let n = cards.len();
    if n < 2 {
        return ;
    }
    let mut st: u64 = seed;
    let mut i: usize = 0;
    while i < n - 1
        invariant
            n == old(cards)@.len(),
            cards@.len() == n,
            n >= 2,
            i <= n - 1,
            shuffled_from(cards@, st, i as int) == seeded_shuffle(old(cards)@, seed),
            cards@.to_multiset() == old(cards)@.to_multiset(),
        decreases n - i,
    {
        st = next_state_value(st);
        let r = st % ((n - i) as u64);
        let j = i + (r as usize);
        let prev = Ghost(cards@);
        let ci = cards[i];
        let cj = cards[j];
        cards.set(i, cj);
        cards.set(j, ci);
        proof {
            lemma_swap_preserves_multiset(prev@, i as int, j as int);
        }
        i = i + 1;
    }
}

/// Relies on rand::random: one fresh value from the thread-local generator.
/// Nothing is promised of it; every caller states what holds of any outcome.
#[verifier::external_body]
fn random_seed() -> u64 {
    rand::random::<u64>()
}

/// The deck, consisting of the:
/// - **stock**, face-down cards that can be drawn at the start of each turn
/// - **discard pile**, discarded cards, which can also be drawn
#[derive(Debug)]
pub struct Deck {
    pub config: DeckConfig,
    pub stock: Vec<Card>,
    pub discard_pile: Vec<Card>,
}

impl Deck {
    /// Creates a new deck following the settings in `config` and shuffles it,
    /// deterministically when a seed is set and from fresh entropy otherwise.
    ///
    /// The configuration is coerced rather than rejected:
    /// - if `pack_count` < 1, it is set to 1;
    /// - if `use_joker` is true while `wildcard_rank` is set, `use_joker` is
    ///   forced to false.
    pub fn new(config: DeckConfig) -> (deck: Deck)
        ensures
            deck.config == normalize_config(config),
            deck.discard_pile@ == Seq::<Card>::empty(),
            deck.stock@.to_multiset() == generated_cards(normalize_config(config)).to_multiset(),
            (match config.shuffle_seed {
                Some(seed) => deck.stock@ == seeded_shuffle(
                    generated_cards(normalize_config(config)),
                    seed,
                ),
                None => exists|seed: u64|
                    deck.stock@ == seeded_shuffle(
                        generated_cards(normalize_config(config)),
                        seed,
                    ),
            }),
    {
        let pack_count = if config.pack_count < 1 {
            1
        } else {
            config.pack_count
        };
        let use_joker = if config.wildcard_rank.is_some() {
            false
        } else {
            config.use_joker
        };
        let config = DeckConfig {
            shuffle_seed: config.shuffle_seed,
            pack_count,
            use_joker,
            high_rank: config.high_rank,
            wildcard_rank: config.wildcard_rank,
        };
        let mut deck = Deck { config, stock: Vec::new(), discard_pile: Vec::new() };
        Deck::generate_cards(&mut deck.stock, &config);
        Deck::shuffle_stock(&mut deck.stock, &config);
        deck
    }

    /// Resets the cards: regenerates the stock from the current configuration,
    /// reshuffles it, and clears the discard pile.
    pub fn reset(&mut self)
        ensures
            final(self).config == old(self).config,
            final(self).discard_pile@ == Seq::<Card>::empty(),
            final(self).stock@.to_multiset() == generated_cards(old(self).config).to_multiset(),
            (match old(self).config.shuffle_seed {
                Some(seed) => final(self).stock@ == seeded_shuffle(
                    generated_cards(old(self).config),
                    seed,
                ),
                None => exists|seed: u64|
                    final(self).stock@ == seeded_shuffle(generated_cards(old(self).config), seed),
            }),
    {
        self.stock.clear();
        self.discard_pile.clear();
        let config = self.config;
        Deck::generate_cards(&mut self.stock, &config);
        Deck::shuffle_stock(&mut self.stock, &config);
    }

    /// Appends the cards that `config` calls for to `stock`, in generation
    /// order.
    fn generate_cards(stock: &mut Vec<Card>, config: &DeckConfig)
        ensures
            final(stock)@ == old(stock)@ + generated_cards(*config),
    {
        let ghost base: Seq<Card> = Seq::new(52, |i: int| pack_card(i));
        let mut p: usize = 0;
        while p < config.pack_count
            invariant
                base == Seq::new(52, |i: int| pack_card(i)),
                p <= config.pack_count,
                stock@ == old(stock)@ + packs(p as nat, config.use_joker),
            decreases config.pack_count - p,
        {
            let mut i: u8 = 0;
            while i < 52
                invariant
                    base == Seq::new(52, |i: int| pack_card(i)),
                    i <= 52,
                    stock@ == old(stock)@ + packs(p as nat, config.use_joker) + base.take(i as int),
                decreases 52 - i,
            {
                let rank = rank_from_value(i / 4);
                let suit = suit_from_value(i % 4);
                stock.push(Card { rank, suit });
                proof {
                    assert(base.take(i + 1) =~= base.take(i as int).push(base[i as int]));
                    assert(stock@ =~= old(stock)@ + packs(p as nat, config.use_joker) + base.take(
                        i + 1,
                    ));
                }
                i = i + 1;
            }
            if config.use_joker {
                stock.push(Card { rank: Rank::Joker, suit: Suit::Joker });
                stock.push(Card { rank: Rank::Joker, suit: Suit::Joker });
            }
            proof {
                assert(base.take(52) =~= base);
                assert(packs((p + 1) as nat, config.use_joker) == packs(p as nat, config.use_joker)
                    + one_pack(config.use_joker));
                assert(stock@ =~= old(stock)@ + packs((p + 1) as nat, config.use_joker));
            }
            p = p + 1;
        }
    }

    /// Shuffles `stock` with the configured seed, or with one drawn from fresh
    /// entropy when none is configured.
    fn shuffle_stock(stock: &mut Vec<Card>, config: &DeckConfig)
        ensures
            final(stock)@.to_multiset() == old(stock)@.to_multiset(),
            (match config.shuffle_seed {
                Some(seed) => final(stock)@ == seeded_shuffle(old(stock)@, seed),
                None => exists|seed: u64| final(stock)@ == seeded_shuffle(old(stock)@, seed),
            }),
    {
        let seed = match config.shuffle_seed {
            Some(seed) => seed,
            None => random_seed(),
        };
        shuffle_cards(stock, seed);
    }

    /// Draws `amount` cards from the top of the stock (the top is the end).
    ///
    /// Fails without drawing anything if `amount` exceeds the stock's size; to
    /// replenish the stock, call [`Deck::shuffle_discarded`] or
    /// [`Deck::turnover_discarded`] first. Cards are conserved: the drawn
    /// cards and the remaining stock partition the old stock.
    pub fn draw(&mut self, amount: usize) -> (r: Result<Vec<Card>, RummyError>)
        ensures
            final(self).config == old(self).config,
            final(self).discard_pile@ == old(self).discard_pile@,
            (match r {
                Ok(cards) => {
                    &&& amount <= old(self).stock@.len()
                    &&& cards@ == old(self).stock@.skip(old(self).stock@.len() - amount)
                    &&& final(self).stock@ == old(self).stock@.take(
                        old(self).stock@.len() - amount,
                    )
                    &&& final(self).stock@.len() + cards@.len() == old(self).stock@.len()
                },
                Err(e) => {
                    &&& e == RummyError::NotEnoughCards
                    &&& amount > old(self).stock@.len()
                    &&& final(self).stock@ == old(self).stock@
                },
            }),
    {
        if amount > self.stock.len() {
            return Err(RummyError::NotEnoughCards);
        }
        let at = self.stock.len() - amount;
        let cards = self.stock.split_off(at);
        Ok(cards)
    }

    /// Draws one named card from the stock, searching from the bottom, so
    /// that of several copies the bottommost leaves; fails if no card of that
    /// rank and suit is in the stock.
    pub fn draw_specific(&mut self, rank: Rank, suit: Suit) -> (r: Result<Card, RummyError>)
        ensures
            final(self).config == old(self).config,
            final(self).discard_pile@ == old(self).discard_pile@,
            (match r {
                Ok(card) => {
                    &&& card == (Card { rank, suit })
                    &&& exists|i: int|
                        {
                            &&& 0 <= i < old(self).stock@.len()
                            &&& old(self).stock@[i] == card
                            &&& (forall|k: int| 0 <= k < i ==> old(self).stock@[k] != card)
                            &&& final(self).stock@ == old(self).stock@.remove(i)
                        }
                },
                Err(e) => {
                    &&& e == RummyError::CardNotInStock
                    &&& !old(self).stock@.contains(Card { rank, suit })
                    &&& final(self).stock@ == old(self).stock@
                },
            }),
    {
        let n = self.stock.len();
        let mut i: usize = 0;
        while i < n
            invariant
                n == self.stock@.len(),
                i <= n,
                self == old(self),
                forall|k: int| 0 <= k < i ==> self.stock@[k] != (Card { rank, suit }),
            decreases n - i,
        {
            let card = self.stock[i];
            if card.rank == rank && card.suit == suit {
                let removed = self.stock.remove(i);
                return Ok(removed);
            }
            i = i + 1;
        }
        proof {
            assert forall|k: int| 0 <= k < old(self).stock@.len() implies old(self).stock@[k] != (
            Card { rank, suit }) by {}
        }
        Err(RummyError::CardNotInStock)
    }

    /// Sees the top card of the discard pile, if there is one, without
    /// removing it.
    pub fn peek_discard_pile(&self) -> (r: Option<(Rank, Suit)>)
        ensures
            (match r {
                Some(d) => {
                    &&& self.discard_pile@.len() > 0
                    &&& d.0 == self.discard_pile@.last().rank
                    &&& d.1 == self.discard_pile@.last().suit
                },
                None => self.discard_pile@.len() == 0,
            }),
    {
        if self.discard_pile.len() == 0 {
            None
        } else {
            let card = self.discard_pile[self.discard_pile.len() - 1];
            Some((card.rank, card.suit))
        }
    }

    /// Draws `amount` cards from the top of the discard pile, or the whole
    /// pile when `amount` is `None`.
    ///
    /// Fails without drawing anything if the pile is empty or `amount` exceeds
    /// its size. Cards are conserved: the drawn cards and the remaining pile
    /// partition the old pile.
    pub fn draw_discard_pile(&mut self, amount: Option<usize>) -> (r: Result<
        Vec<Card>,
        RummyError,
    >)
        ensures
            final(self).config == old(self).config,
            final(self).stock@ == old(self).stock@,
            (match r {
                Ok(cards) => {
                    &&& old(self).discard_pile@.len() > 0
                    &&& (match amount {
                        Some(a) => {
                            &&& a <= old(self).discard_pile@.len()
                            &&& cards@ == old(self).discard_pile@.skip(
                                old(self).discard_pile@.len() - a,
                            )
                            &&& final(self).discard_pile@ == old(self).discard_pile@.take(
                                old(self).discard_pile@.len() - a,
                            )
                        },
                        None => {
                            &&& cards@ == old(self).discard_pile@
                            &&& final(self).discard_pile@ == Seq::<Card>::empty()
                        },
                    })
                    &&& final(self).discard_pile@.len() + cards@.len() == old(
                        self,
                    ).discard_pile@.len()
                },
                Err(e) => {
                    &&& final(self).discard_pile@ == old(self).discard_pile@
                    &&& (e == RummyError::EmptyDiscardPile || e == RummyError::NotEnoughCards)
                    &&& (e == RummyError::EmptyDiscardPile <==> old(self).discard_pile@.len() == 0)
                    &&& (e == RummyError::NotEnoughCards <==> {
                        &&& old(self).discard_pile@.len() > 0
                        &&& amount matches Some(a) && a > old(self).discard_pile@.len()
                    })
                },
            }),
    {
        let discard_size = self.discard_pile.len();
        if discard_size == 0 {
            return Err(RummyError::EmptyDiscardPile);
        }
        match amount {
            Some(a) => {
                if a > discard_size {
                    return Err(RummyError::NotEnoughCards);
                }
                let cards = self.discard_pile.split_off(discard_size - a);
                proof {
                    assert(final (self).discard_pile@.len() + cards@.len() == old(
                        self,
                    ).discard_pile@.len());
                }
                Ok(cards)
            },
            None => {
                let cards = self.discard_pile.split_off(0);
                proof {
                    assert(cards@ =~= old(self).discard_pile@);
                    assert(final (self).discard_pile@ =~= Seq::<Card>::empty());
                }
                Ok(cards)
            },
        }
    }

    /// Moves every card of `cards` onto the discard pile, leaving `cards`
    /// empty; insertion order is kept, so the last card of `cards` ends on
    /// top.
    pub fn add_to_discard_pile(&mut self, cards: &mut Vec<Card>)
        ensures
            final(self).config == old(self).config,
            final(self).stock@ == old(self).stock@,
            final(self).discard_pile@ == old(self).discard_pile@ + old(cards)@,
            final(cards)@ == Seq::<Card>::empty(),
            final(self).discard_pile@.len() == old(self).discard_pile@.len() + old(cards)@.len(),
    {
        self.discard_pile.append(cards);
    }

    /// Replenishes the stock: moves the discard pile into it and shuffles the
    /// whole stock from fresh entropy. The new stock is a permutation of the
    /// old stock and discard pile together.
    pub fn shuffle_discarded(&mut self)
        ensures
            final(self).config == old(self).config,
            final(self).discard_pile@ == Seq::<Card>::empty(),
            final(self).stock@.to_multiset() == (old(self).stock@
                + old(self).discard_pile@).to_multiset(),
            final(self).stock@.len() == old(self).stock@.len() + old(self).discard_pile@.len(),
            exists|seed: u64|
                final(self).stock@ == seeded_shuffle(
                    old(self).stock@ + old(self).discard_pile@,
                    seed,
                ),
    {
        self.stock.append(&mut self.discard_pile);
        let seed = random_seed();
        shuffle_cards(&mut self.stock, seed);
        proof {
            broadcast use vstd::seq_lib::group_to_multiset_ensures;

            assert(self.stock@.to_multiset().len() == self.stock@.len());
            let joined = old(self).stock@ + old(self).discard_pile@;
            assert(joined.to_multiset().len() == joined.len());
        }
    }

    /// Replenishes the stock without shuffling: moves the discard pile into it
    /// and turns the whole stock over, reversing its order.
    pub fn turnover_discarded(&mut self)
        ensures
            final(self).config == old(self).config,
            final(self).discard_pile@ == Seq::<Card>::empty(),
            final(self).stock@ == (old(self).stock@ + old(self).discard_pile@).reverse(),
            final(self).stock@.len() == old(self).stock@.len() + old(self).discard_pile@.len(),
            final(self).stock@.to_multiset() == (old(self).stock@
                + old(self).discard_pile@).to_multiset(),
    {
        self.stock.append(&mut self.discard_pile);
        reverse_cards(&mut self.stock);
        proof {
            (old(self).stock@ + old(self).discard_pile@).lemma_reverse_to_multiset();
        }
    }

    /// A reference to the deck configuration.
    pub fn config(&self) -> (c: &DeckConfig)
        ensures
            c == self.config,
    {
        &self.config
    }

    /// A reference to the deck stock.
    pub fn stock(&self) -> (s: &Vec<Card>)
        ensures
            s == self.stock,
    {
        &self.stock
    }

    /// A reference to the deck discard pile.
    pub fn discard_pile(&self) -> (d: &Vec<Card>)
        ensures
            d == self.discard_pile,
    {
        &self.discard_pile
    }
}

/// Reverses `cards` in place.
fn reverse_cards(cards: &mut Vec<Card>)
    ensures
        final(cards)@ == old(cards)@.reverse(),
{
    let n = cards.len();
    let mut out: Vec<Card> = Vec::new();
    let mut k: usize = 0;
    while k < n
        invariant
            n == cards@.len(),
            cards@ == old(cards)@,
            k <= n,
            out@.len() == k,
            forall|i: int| 0 <= i < k ==> out@[i] == cards@[n - 1 - i],
        decreases n - k,
    {
        let c = cards[n - 1 - k];
        out.push(c);
        k = k + 1;
    }
    proof {
        assert(out@ =~= old(cards)@.reverse());
    }
    *cards = out;
}

/// With a fixed seed, deck generation is deterministic: two stocks shuffled
/// from the same cards and the same seed are the same stock, so two decks
/// built from one seeded configuration agree card for card.
pub proof fn lemma_seeded_deck_deterministic(
    config: DeckConfig,
    seed: u64,
    stock1: Seq<Card>,
    stock2: Seq<Card>,
)
    requires
        stock1 == seeded_shuffle(generated_cards(normalize_config(config)), seed),
        stock2 == seeded_shuffle(generated_cards(normalize_config(config)), seed),
    ensures
        stock1 == stock2,
{
}

/// Turning the discard pile over onto an empty stock yields exactly the
/// discard pile in reverse: the card discarded last is drawn first.
pub proof fn lemma_turnover_reverses_discards(stock: Seq<Card>, discard: Seq<Card>)
    requires
        stock.len() == 0,
    ensures
        (stock + discard).reverse() == discard.reverse(),
        forall|i: int|
            0 <= i < discard.len() ==> (stock + discard).reverse()[i] == discard[discard.len() - 1
                - i],
{
    assert(stock + discard =~= discard);
}

} // verus!
