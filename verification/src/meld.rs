//! Meld validation and construction: Sets (3+ cards of one rank) and Runs
//! (3+ same-suit cards consecutive in rank), with wildcard substitution.
//!
//! All operations are pure validations and transformations over explicit card
//! collections; the deck's configuration is passed in wherever wildcard or
//! ordering semantics are needed. A failed operation never mutates the hand.

use vstd::prelude::*;
use vstd::multiset::Multiset;
use crate::suit_rank::{Rank, Suit};
use crate::card::{Card, order_key, order_key_value};
use crate::deck::DeckConfig;
use crate::error::MeldError;

verus! {

/// The wildcard rank in force under `config`: the configured wildcard rank,
/// or the joker rank when jokers are in play, or none.
pub open spec fn wildcard_of(config: DeckConfig) -> Option<Rank> {
    match config.wildcard_rank {
        Some(r) => Some(r),
        None => if config.use_joker {
            Some(Rank::Joker)
        } else {
            None
        },
    }
}

/// Whether `c` counts as a wildcard under `config`.
pub open spec fn is_wild(c: Card, config: DeckConfig) -> bool {
    wildcard_of(config) == Some(c.rank)
}

/// Executable twin of [`is_wild`].
pub fn card_is_wild(c: &Card, config: &DeckConfig) -> (b: bool)
    ensures
        b == is_wild(*c, *config),
{
    match config.wildcard_rank {
        Some(r) => c.rank == r,
        None => config.use_joker && matches!(c.rank, Rank::Joker),
    }
}

/// The cards of `hand` at positions `idxs`, in the order the positions are
/// given.
pub open spec fn selected_cards(hand: Seq<Card>, idxs: Seq<usize>) -> Seq<Card> {
    Seq::new(idxs.len(), |k: int| hand[idxs[k] as int])
}

/// Every position in `idxs` points into `hand`.
pub open spec fn indices_in_bounds(hand: Seq<Card>, idxs: Seq<usize>) -> bool {
    forall|k: int| 0 <= k < idxs.len() ==> (idxs[k] as int) < hand.len()
}

/// No hand position is selected twice.
pub open spec fn indices_distinct(idxs: Seq<usize>) -> bool {
    forall|k1: int, k2: int| 0 <= k1 < k2 < idxs.len() ==> idxs[k1] != idxs[k2]
}

/// Whether hand position `j` is among the selected positions.
pub open spec fn idx_selected(idxs: Seq<usize>, j: int) -> bool {
    exists|k: int| 0 <= k < idxs.len() && idxs[k] as int == j
}

/// `hand` from position `from` on, with the positions in `idxs` left out;
/// the order of the kept cards is preserved.
pub open spec fn remaining_from(hand: Seq<Card>, idxs: Seq<usize>, from: int) -> Seq<Card>
    decreases hand.len() - from,
{
    if from < 0 || from >= hand.len() {
        Seq::empty()
    } else if idx_selected(idxs, from) {
        remaining_from(hand, idxs, from + 1)
    } else {
        seq![hand[from]] + remaining_from(hand, idxs, from + 1)
    }
}

/// `hand` with the positions in `idxs` removed and the order of the rest
/// preserved.
pub open spec fn removed_cards(hand: Seq<Card>, idxs: Seq<usize>) -> Seq<Card> {
    remaining_from(hand, idxs, 0)
}

/// How many positions in `from..len` are selected by `idxs`.
pub open spec fn sel_count(len: int, idxs: Seq<usize>, from: int) -> int
    decreases len - from,
{
    if from < 0 || from >= len {
        0
    } else {
        (if idx_selected(idxs, from) {
            1int
        } else {
            0int
        }) + sel_count(len, idxs, from + 1)
    }
}

/// What remains after removal is the positions not selected, so its length is
/// the tail's length less the selected positions in it.
proof fn lemma_remaining_len(hand: Seq<Card>, idxs: Seq<usize>, from: int)
    requires
        0 <= from <= hand.len(),
    ensures
        remaining_from(hand, idxs, from).len() == hand.len() - from - sel_count(
            hand.len() as int,
            idxs,
            from,
        ),
        0 <= sel_count(hand.len() as int, idxs, from) <= hand.len() - from,
    decreases hand.len() - from,
{
    if from < hand.len() {
        lemma_remaining_len(hand, idxs, from + 1);
    }
}

/// Dropping the last selected position lowers the count over `from..len` by
/// one exactly when that position is at `from` or beyond.
proof fn lemma_sel_count_drop(len: int, idxs: Seq<usize>, from: int)
    requires
        idxs.len() > 0,
        indices_distinct(idxs),
        (idxs.last() as int) < len,
        0 <= from,
    ensures
        sel_count(len, idxs, from) == sel_count(len, idxs.drop_last(), from) + (
        if from <= idxs.last() as int {
            1int
        } else {
            0int
        }),
    decreases len - from,
{
    let short = idxs.drop_last();
    let p = idxs.last() as int;
    if from >= len {
    } else {
        assert(idx_selected(short, from) ==> idx_selected(idxs, from)) by {
            if idx_selected(short, from) {
                let k = choose|k: int|
                    0 <= k < short.len() && short[k] as int == from;
                assert(idxs[k] as int == from);
            }
        }
        assert(idx_selected(idxs, from) && from != p ==> idx_selected(short, from)) by {
            if idx_selected(idxs, from) && from != p {
                let k = choose|k: int|
                    0 <= k < idxs.len() && idxs[k] as int == from;
                assert(k < idxs.len() - 1) by {
                    if k == idxs.len() - 1 {
                        assert(idxs[k] == idxs.last());
                    }
                }
                assert(short[k] as int == from);
            }
        }
        assert(!idx_selected(short, p)) by {
            if idx_selected(short, p) {
                let k = choose|k: int|
                    0 <= k < short.len() && short[k] as int == p;
                assert(idxs[k] == idxs[idxs.len() - 1]);
            }
        }
        assert(idx_selected(idxs, p)) by {
            assert(idxs[idxs.len() - 1] as int == p);
        }
        lemma_sel_count_drop(len, idxs, from + 1);
    }
}

/// An empty selection selects no position.
proof fn lemma_sel_count_none(len: int, idxs: Seq<usize>, from: int)
    requires
        idxs.len() == 0,
        0 <= from,
    ensures
        sel_count(len, idxs, from) == 0,
    decreases len - from,
{
    if from < len {
        lemma_sel_count_none(len, idxs, from + 1);
    }
}

/// Distinct, in-bounds selections select exactly as many positions as there
/// are indices.
proof fn lemma_sel_count_total(len: int, idxs: Seq<usize>)
    requires
        len >= 0,
        indices_distinct(idxs),
        forall|k: int| 0 <= k < idxs.len() ==> (idxs[k] as int) < len,
    ensures
        sel_count(len, idxs, 0) == idxs.len(),
    decreases idxs.len(),
{
    if idxs.len() == 0 {
        lemma_sel_count_none(len, idxs, 0);
    } else {
        lemma_sel_count_drop(len, idxs, 0);
        let short = idxs.drop_last();
        assert(indices_distinct(short)) by {
            assert(forall|k1: int, k2: int|
                0 <= k1 < k2 < short.len() ==> short[k1] == idxs[k1] && short[k2] == idxs[k2]);
        }
        assert(forall|k: int| 0 <= k < short.len() ==> (#[trigger] short[k] as int) < len) by {
            assert(forall|k: int| 0 <= k < short.len() ==> short[k] == idxs[k]);
        }
        lemma_sel_count_total(len, short);
        assert(0 <= idxs.last() as int);
        assert(sel_count(len, idxs, 0) == sel_count(len, short, 0) + 1);
    }
}

/// Removing distinct, in-bounds positions shrinks the hand by exactly their
/// number.
pub proof fn lemma_removed_cards_len(hand: Seq<Card>, idxs: Seq<usize>)
    requires
        indices_in_bounds(hand, idxs),
        indices_distinct(idxs),
    ensures
        removed_cards(hand, idxs).len() == hand.len() - idxs.len(),
{
    lemma_remaining_len(hand, idxs, 0);
    lemma_sel_count_total(hand.len() as int, idxs);
}

/// Whether `idxs` holds the value `j`.
fn contains_index(idxs: &Vec<usize>, j: usize) -> (b: bool)
    ensures
        b == idx_selected(idxs@, j as int),
{
    let n = idxs.len();
    let mut k: usize = 0;
    while k < n
        invariant
            n == idxs@.len(),
            k <= n,
            forall|t: int| 0 <= t < k ==> idxs@[t] != j,
        decreases n - k,
    {
        if idxs[k] == j {
            return true;
        }
        k = k + 1;
    }
    false
}

/// The cards of `hand` at positions `idxs`, or an index failure if any
/// position is out of bounds.
fn gather_cards(hand: &Vec<Card>, idxs: &Vec<usize>) -> (r: Result<Vec<Card>, MeldError>)
    ensures
        (match r {
            Ok(cards) => {
                &&& indices_in_bounds(hand@, idxs@)
                &&& cards@ == selected_cards(hand@, idxs@)
            },
            Err(e) => {
                &&& e == MeldError::IndexOutOfBounds
                &&& !indices_in_bounds(hand@, idxs@)
            },
        }),
{
    let n = idxs.len();
    let mut cards: Vec<Card> = Vec::new();
    let mut k: usize = 0;
    while k < n
        invariant
            n == idxs@.len(),
            k <= n,
            cards@.len() == k,
            forall|t: int| 0 <= t < k ==> (idxs@[t] as int) < hand@.len(),
            forall|t: int| 0 <= t < k ==> cards@[t] == hand@[idxs@[t] as int],
        decreases n - k,
    {
        let i = idxs[k];
        if i >= hand.len() {
            return Err(MeldError::IndexOutOfBounds);
        }
        cards.push(hand[i]);
        k = k + 1;
    }
    proof {
        assert(cards@ =~= selected_cards(hand@, idxs@));
    }
    Ok(cards)
}

/// Whether no hand position is selected twice.
fn check_indices_distinct(idxs: &Vec<usize>) -> (b: bool)
    ensures
        b == indices_distinct(idxs@),
{
    let n = idxs.len();
    let mut k1: usize = 0;
    while k1 < n
        invariant
            n == idxs@.len(),
            k1 <= n,
            forall|a: int, b: int| 0 <= a < b < idxs@.len() && a < k1 ==> idxs@[a] != idxs@[b],
        decreases n - k1,
    {
        let mut k2: usize = k1 + 1;
        while k2 < n
            invariant
                n == idxs@.len(),
                k1 < n,
                k1 < k2 <= n,
                forall|a: int, b: int| 0 <= a < b < idxs@.len() && a < k1 ==> idxs@[a] != idxs@[b],
                forall|b: int| k1 < b < k2 ==> idxs@[k1 as int] != idxs@[b],
            decreases n - k2,
        {
            if idxs[k1] == idxs[k2] {
                return false;
            }
            k2 = k2 + 1;
        }
        k1 = k1 + 1;
    }
    true
}

/// Removes the positions in `idxs` from `hand`, preserving the order of what
/// stays.
fn remove_chosen(hand: &mut Vec<Card>, idxs: &Vec<usize>)
    ensures
        final(hand)@ == removed_cards(old(hand)@, idxs@),
{
    let n = hand.len();
    let mut out: Vec<Card> = Vec::new();
    let mut j: usize = 0;
    while j < n
        invariant
            n == hand@.len(),
            hand@ == old(hand)@,
            j <= n,
            out@ + remaining_from(hand@, idxs@, j as int) == removed_cards(hand@, idxs@),
        decreases n - j,
    {
        if !contains_index(idxs, j) {
            out.push(hand[j]);
            proof {
                assert(out@ + remaining_from(hand@, idxs@, j + 1) =~= removed_cards(
                    hand@,
                    idxs@,
                ));
            }
        }
        j = j + 1;
    }
    proof {
        assert(out@ =~= removed_cards(old(hand)@, idxs@));
    }
    *hand = out;
}

/// The rank of the first non-wildcard card; the joker rank if every card is
/// wild or there are none.
pub open spec fn anchor_rank(cards: Seq<Card>, config: DeckConfig) -> Rank
    decreases cards.len(),
{
    if cards.len() == 0 {
        Rank::Joker
    } else if !is_wild(cards[0], config) {
        cards[0].rank
    } else {
        anchor_rank(cards.drop_first(), config)
    }
}

/// A valid Set selection: at least 3 cards, at least one of them not a
/// wildcard, and every card either a wildcard or of the set's resolved rank
/// (the rank of the first non-wildcard card).
pub open spec fn valid_set(cards: Seq<Card>, config: DeckConfig) -> bool {
    &&& cards.len() >= 3
    &&& exists|k: int| 0 <= k < cards.len() && !is_wild(cards[k], config)
    &&& forall|k: int|
        0 <= k < cards.len() ==> is_wild(cards[k], config) || cards[k].rank == anchor_rank(
            cards,
            config,
        )
}

/// The least ordering key among the non-wildcard cards, walking from the back;
/// 14 (above every key) when there are none.
pub open spec fn min_natural_key(cards: Seq<Card>, config: DeckConfig) -> int
    decreases cards.len(),
{
    if cards.len() == 0 {
        14
    } else {
        let rest = min_natural_key(cards.drop_last(), config);
        if is_wild(cards.last(), config) {
            rest
        } else {
            let k = order_key(cards.last().rank, config);
            if k < rest {
                k
            } else {
                rest
            }
        }
    }
}

/// The greatest ordering key among the non-wildcard cards, walking from the
/// back; -1 (below every key) when there are none.
pub open spec fn max_natural_key(cards: Seq<Card>, config: DeckConfig) -> int
    decreases cards.len(),
{
    if cards.len() == 0 {
        -1
    } else {
        let rest = max_natural_key(cards.drop_last(), config);
        if is_wild(cards.last(), config) {
            rest
        } else {
            let k = order_key(cards.last().rank, config);
            if k > rest {
                k
            } else {
                rest
            }
        }
    }
}

/// A valid Run selection: at least 3 cards, at least one of them not a
/// wildcard, the non-wildcards all of one suit and of pairwise distinct
/// ordering keys, and the key span they cover small enough that the selected
/// wildcards can fill every gap.
pub open spec fn valid_run(cards: Seq<Card>, config: DeckConfig) -> bool {
    &&& cards.len() >= 3
    &&& exists|k: int| 0 <= k < cards.len() && !is_wild(cards[k], config)
    &&& forall|k1: int, k2: int|
        0 <= k1 < k2 < cards.len() && !is_wild(cards[k1], config) && !is_wild(cards[k2], config)
            ==> cards[k1].suit == cards[k2].suit
    &&& forall|k1: int, k2: int|
        0 <= k1 < k2 < cards.len() && !is_wild(cards[k1], config) && !is_wild(cards[k2], config)
            ==> order_key(cards[k1].rank, config) != order_key(cards[k2].rank, config)
    &&& max_natural_key(cards, config) - min_natural_key(cards, config) + 1 <= cards.len()
}

/// Changing the configured high rank changes which sequences form runs: the
/// same-suit King, Ace, Two are consecutive when Two is the high rank, but
/// not under the default ordering, where they span the whole rank space.
pub proof fn lemma_high_rank_changes_runs(c1: DeckConfig, c2: DeckConfig)
    requires
        c1.high_rank is None,
        c1.wildcard_rank is None,
        !c1.use_joker,
        c2.high_rank == Some(Rank::Two),
        c2.wildcard_rank is None,
        !c2.use_joker,
    ensures
        exists|cards: Seq<Card>| valid_run(cards, c2) && !valid_run(cards, c1),
{
    let k = Card { rank: Rank::King, suit: Suit::Clubs };
    let a = Card { rank: Rank::Ace, suit: Suit::Clubs };
    let t = Card { rank: Rank::Two, suit: Suit::Clubs };
    let cards = seq![k, a, t];
    assert(cards[0] == k && cards[1] == a && cards[2] == t);
    assert(cards.drop_last() =~= seq![k, a]);
    assert(seq![k, a].drop_last() =~= seq![k]);
    assert(seq![k].drop_last() =~= Seq::<Card>::empty());
    assert(order_key(Rank::King, c1) == 12 && order_key(Rank::Ace, c1) == 0 && order_key(
        Rank::Two,
        c1,
    ) == 1);
    assert(order_key(Rank::King, c2) == 10 && order_key(Rank::Ace, c2) == 11 && order_key(
        Rank::Two,
        c2,
    ) == 12);
    assert(min_natural_key(Seq::<Card>::empty(), c1) == 14 && max_natural_key(
        Seq::<Card>::empty(),
        c1,
    ) == -1);
    assert(min_natural_key(Seq::<Card>::empty(), c2) == 14 && max_natural_key(
        Seq::<Card>::empty(),
        c2,
    ) == -1);
    assert(min_natural_key(seq![k], c1) == 12 && max_natural_key(seq![k], c1) == 12);
    assert(min_natural_key(seq![k, a], c1) == 0 && max_natural_key(seq![k, a], c1) == 12);
    assert(min_natural_key(cards, c1) == 0 && max_natural_key(cards, c1) == 12);
    assert(min_natural_key(seq![k], c2) == 10 && max_natural_key(seq![k], c2) == 10);
    assert(min_natural_key(seq![k, a], c2) == 10 && max_natural_key(seq![k, a], c2) == 11);
    assert(min_natural_key(cards, c2) == 10 && max_natural_key(cards, c2) == 12);
    assert(!valid_run(cards, c1));
    assert(valid_run(cards, c2));
}

/// A meld of fewer than 3 cards is always rejected, whatever the wildcard
/// configuration.
pub proof fn lemma_small_meld_invalid(cards: Seq<Card>, config: DeckConfig)
    requires
        cards.len() < 3,
    ensures
        !valid_set(cards, config),
        !valid_run(cards, config),
{
}

/// A selection consisting entirely of wildcards never forms a set or a run:
/// wildcards have no inherent rank to anchor the meld.
pub proof fn lemma_all_wild_invalid(cards: Seq<Card>, config: DeckConfig)
    requires
        forall|k: int| 0 <= k < cards.len() ==> is_wild(cards[k], config),
    ensures
        !valid_set(cards, config),
        !valid_run(cards, config),
{
}

/// Attempt to create a new meld out of `Card`s and indices of the chosen
/// cards.
///
/// If valid, the indexed cards are removed from the hand and `Ok` is
/// returned; else, `Err` is returned and the hand is left untouched.
pub trait Meldable: Sized {
    /// Attempt to form the meld from the cards of `hand_cards` at positions
    /// `indices` (in any order); on success those cards move out of the hand
    /// into the meld.
    fn new(hand_cards: &mut Vec<Card>, indices: &Vec<usize>, config: &DeckConfig) -> Result<
        Self,
        MeldError,
    >;

    /// Attempt to add the card of `hand_cards` at position `index` to the
    /// meld; on success the card moves out of the hand into the meld, and on
    /// failure neither the hand nor the meld changes.
    fn layoff_card(
        &mut self,
        hand_cards: &mut Vec<Card>,
        index: usize,
        config: &DeckConfig,
    ) -> Result<(), MeldError>;
}

/// A Rummy meld set: three or more cards of one resolved rank, wildcards
/// aside.
#[derive(Debug)]
pub struct SetMeld {
    pub cards: Vec<Card>,
    pub set_rank: Rank,
}

/// What every set holds of itself, relative to the deck configuration it was
/// formed under: at least 3 cards, one of them not wild, and every card
/// either wild or of the set's rank.
pub open spec fn set_wf(s: SetMeld, config: DeckConfig) -> bool {
    &&& s.cards@.len() >= 3
    &&& exists|k: int| 0 <= k < s.cards@.len() && !is_wild(s.cards@[k], config)
    &&& forall|k: int|
        0 <= k < s.cards@.len() ==> is_wild(s.cards@[k], config) || s.cards@[k].rank == s.set_rank
}

impl SetMeld {
    /// A reference to the set's cards.
    pub fn cards(&self) -> (c: &Vec<Card>)
        ensures
            c == self.cards,
    {
        &self.cards
    }

    /// The rank the set resolved to.
    pub fn rank(&self) -> (r: Rank)
        ensures
            r == self.set_rank,
    {
        self.set_rank
    }
}

impl Meldable for SetMeld {
    /// Forms a set: every selected card must share one rank or be the
    /// wildcard rank, and at least one non-wildcard card must be present.
    /// The resolved rank is the first non-wildcard rank encountered.
    ///
    /// On failure the hand is left exactly as it was, and the error says
    /// which check failed; the checks run in the order: indices in bounds,
    /// indices distinct, at least 3 cards, not all wildcards, one rank.
    fn new(hand_cards: &mut Vec<Card>, indices: &Vec<usize>, config: &DeckConfig) -> (r: Result<
        SetMeld,
        MeldError,
    >)
        ensures
            (match r {
                Ok(s) => {
                    &&& indices_in_bounds(old(hand_cards)@, indices@)
                    &&& indices_distinct(indices@)
                    &&& valid_set(selected_cards(old(hand_cards)@, indices@), *config)
                    &&& s.cards@ == selected_cards(old(hand_cards)@, indices@)
                    &&& s.set_rank == anchor_rank(
                        selected_cards(old(hand_cards)@, indices@),
                        *config,
                    )
                    &&& set_wf(s, *config)
                    &&& final(hand_cards)@ == removed_cards(old(hand_cards)@, indices@)
                    &&& final(hand_cards)@.len() + indices@.len() == old(hand_cards)@.len()
                },
                Err(e) => {
                    &&& final(hand_cards)@ == old(hand_cards)@
                    &&& {
                        let sel = selected_cards(old(hand_cards)@, indices@);
                        let in_bounds = indices_in_bounds(old(hand_cards)@, indices@);
                        let distinct = indices_distinct(indices@);
                        &&& !(in_bounds && distinct && valid_set(sel, *config))
                        &&& (e == MeldError::IndexOutOfBounds <==> !in_bounds)
                        &&& (e == MeldError::RepeatedIndex <==> in_bounds && !distinct)
                        &&& (e == MeldError::TooFewCards <==> in_bounds && distinct && sel.len()
                            < 3)
                        &&& (e == MeldError::WildcardsOnly <==> in_bounds && distinct && sel.len()
                            >= 3 && (forall|k: int|
                            0 <= k < sel.len() ==> is_wild(sel[k], *config)))
                        &&& (e == MeldError::NotASet <==> in_bounds && distinct && sel.len() >= 3
                            && (exists|k: int| 0 <= k < sel.len() && !is_wild(sel[k], *config))
                            && !valid_set(sel, *config))
                    }
                },
            }),
    {
        let cards = match gather_cards(hand_cards, indices) {
            Ok(cards) => cards,
            Err(e) => {
                return Err(e);
            },
        };
        if !check_indices_distinct(indices) {
            return Err(MeldError::RepeatedIndex);
        }
        if cards.len() < 3 {
            return Err(MeldError::TooFewCards);
        }
        let set_rank = match find_anchor_rank(&cards, config) {
            Some(rank) => rank,
            None => {
                return Err(MeldError::WildcardsOnly);
            },
        };
        let n = cards.len();
        let mut k: usize = 0;
        while k < n
            invariant
                n == cards@.len(),
                k <= n,
                set_rank == anchor_rank(cards@, *config),
                exists|t: int| 0 <= t < cards@.len() && !is_wild(cards@[t], *config),
                hand_cards@ == old(hand_cards)@,
                cards@ == selected_cards(old(hand_cards)@, indices@),
                indices_in_bounds(old(hand_cards)@, indices@),
                indices_distinct(indices@),
                cards@.len() >= 3,
                forall|t: int|
                    0 <= t < k ==> is_wild(cards@[t], *config) || cards@[t].rank == set_rank,
            decreases n - k,
        {
            let card = cards[k];
            if !card_is_wild(&card, config) && !(card.rank == set_rank) {
                return Err(MeldError::NotASet);
            }
            k = k + 1;
        }
        remove_chosen(hand_cards, indices);
        proof {
            lemma_removed_cards_len(old(hand_cards)@, indices@);
        }
        Ok(SetMeld { cards, set_rank })
    }

    /// Lays one card off onto the set: the card must be of the set's rank or
    /// be the wildcard rank; on success it moves from the hand into the set,
    /// and on failure neither changes.
    fn layoff_card(
        &mut self,
        hand_cards: &mut Vec<Card>,
        index: usize,
        config: &DeckConfig,
    ) -> (r: Result<(), MeldError>)
        ensures
            final(self).set_rank == old(self).set_rank,
            (match r {
                Ok(()) => {
                    &&& (index as int) < old(hand_cards)@.len()
                    &&& {
                        let card = old(hand_cards)@[index as int];
                        &&& (card.rank == old(self).set_rank || is_wild(card, *config))
                        &&& final(self).cards@ == old(self).cards@.push(card)
                        &&& final(hand_cards)@ == old(hand_cards)@.remove(index as int)
                    }
                },
                Err(e) => {
                    &&& final(self).cards@ == old(self).cards@
                    &&& final(hand_cards)@ == old(hand_cards)@
                    &&& (e == MeldError::IndexOutOfBounds || e == MeldError::CannotLayoff)
                    &&& (e == MeldError::IndexOutOfBounds <==> (index as int) >= old(
                        hand_cards,
                    )@.len())
                    &&& (e == MeldError::CannotLayoff <==> (index as int) < old(hand_cards)@.len()
                        && {
                        let card = old(hand_cards)@[index as int];
                        &&& card.rank != old(self).set_rank
                        &&& !is_wild(card, *config)
                    })
                },
            }),
            set_wf(*old(self), *config) && r is Ok ==> set_wf(*final(self), *config),
    {
        if index >= hand_cards.len() {
            return Err(MeldError::IndexOutOfBounds);
        }
        let card = hand_cards[index];
        if card.rank == self.set_rank || card_is_wild(&card, config) {
            let card = hand_cards.remove(index);
            self.cards.push(card);
            proof {
                if set_wf(*old(self), *config) {
                    let prev = old(self).cards@;
                    assert(forall|t: int| 0 <= t < prev.len() ==> self.cards@[t] == prev[t]);
                    let w = choose|w: int| 0 <= w < prev.len() && !is_wild(prev[w], *config);
                    assert(!is_wild(self.cards@[w], *config));
                }
            }
            Ok(())
        } else {
            Err(MeldError::CannotLayoff)
        }
    }
}

/// The rank of the first non-wildcard card of `cards`, or `None` when every
/// card is wild.
fn find_anchor_rank(cards: &Vec<Card>, config: &DeckConfig) -> (r: Option<Rank>)
    ensures
        (match r {
            Some(rank) => {
                &&& exists|k: int| 0 <= k < cards@.len() && !is_wild(cards@[k], *config)
                &&& rank == anchor_rank(cards@, *config)
            },
            None => forall|k: int| 0 <= k < cards@.len() ==> is_wild(cards@[k], *config),
        }),
{
    let n = cards.len();
    proof {
        assert(cards@.skip(0) =~= cards@);
    }
    let mut k: usize = 0;
    while k < n
        invariant
            n == cards@.len(),
            k <= n,
            forall|t: int| 0 <= t < k ==> is_wild(cards@[t], *config),
            anchor_rank(cards@, *config) == anchor_rank(cards@.skip(k as int), *config),
        decreases n - k,
    {
        let card = cards[k];
        if !card_is_wild(&card, config) {
            proof {
                assert(cards@.skip(k as int)[0] == cards@[k as int]);
            }
            return Some(card.rank);
        }
        proof {
            assert(cards@.skip(k as int).drop_first() =~= cards@.skip(k + 1));
        }
        k = k + 1;
    }
    None
}

/// A Rummy meld run: same-suit cards of consecutive ordering keys, wildcards
/// standing in where they were needed, spare wildcards extending the top end.
#[derive(Debug)]
pub struct Run {
    pub cards: Vec<Card>,
    pub suit: Suit,
}

/// The ordering key of the run's bottom position: the key of its first card,
/// which is never a wildcard in a well-formed run.
pub open spec fn run_low(run: Run, config: DeckConfig) -> int {
    order_key(run.cards@[0].rank, config)
}

/// What every run holds of itself, relative to the deck configuration it was
/// formed under: at least 3 cards, a non-wildcard card at the bottom, and each
/// non-wildcard card of the run's suit, sitting at the position its ordering
/// key names, counted from the bottom key up.
pub open spec fn run_wf(run: Run, config: DeckConfig) -> bool {
    &&& run.cards@.len() >= 3
    &&& !is_wild(run.cards@[0], config)
    &&& forall|k: int|
        0 <= k < run.cards@.len() && !is_wild(run.cards@[k], config) ==> run.cards@[k].suit
            == run.suit && order_key(run.cards@[k].rank, config) == run_low(run, config) + k
}

/// Whether the run can take `card`: a wildcard always extends it at the top;
/// a natural card must match the run's suit and sit one key below the bottom
/// or one above the top.
pub open spec fn run_accepts(run: Run, card: Card, config: DeckConfig) -> bool {
    ||| is_wild(card, config)
    ||| {
        &&& run.cards@.len() > 0
        &&& card.suit == run.suit
        &&& (order_key(card.rank, config) + 1 == run_low(run, config) || order_key(
            card.rank,
            config,
        ) == run_low(run, config) + run.cards@.len())
    }
}

impl Run {
    /// A reference to the run's cards, bottom of the run first.
    pub fn cards(&self) -> (c: &Vec<Card>)
        ensures
            c == self.cards,
    {
        &self.cards
    }

    /// The suit the run is in.
    pub fn run_suit(&self) -> (s: Suit)
        ensures
            s == self.suit,
    {
        self.suit
    }
}

/// Any non-wildcard card's key lies between the least and greatest natural
/// keys of its sequence.
proof fn lemma_natural_key_bounds(cards: Seq<Card>, config: DeckConfig, t: int)
    requires
        0 <= t < cards.len(),
        !is_wild(cards[t], config),
    ensures
        min_natural_key(cards, config) <= order_key(cards[t].rank, config) <= max_natural_key(
            cards,
            config,
        ),
        min_natural_key(cards, config) >= 0,
        max_natural_key(cards, config) <= 13,
    decreases cards.len(),
{
    lemma_natural_key_range(cards, config);
    if t < cards.len() - 1 {
        lemma_natural_key_bounds(cards.drop_last(), config, t);
    }
}

/// The least natural key is at least 0 and the greatest at most 13 (or their
/// empty-case sentinels).
proof fn lemma_natural_key_range(cards: Seq<Card>, config: DeckConfig)
    ensures
        0 <= min_natural_key(cards, config) <= 14,
        -1 <= max_natural_key(cards, config) <= 13,
    decreases cards.len(),
{
    if cards.len() > 0 {
        lemma_natural_key_range(cards.drop_last(), config);
    }
}

/// Cards of pairwise distinct keys, all lying in `lo..hi`, are at most
/// `hi - lo` many.
proof fn lemma_distinct_keys_bound(cards: Seq<Card>, config: DeckConfig, lo: int, hi: int)
    requires
        lo <= hi,
        forall|j: int| 0 <= j < cards.len() ==> !is_wild(cards[j], config),
        forall|j1: int, j2: int|
            0 <= j1 < j2 < cards.len() ==> order_key(cards[j1].rank, config) != order_key(
                cards[j2].rank,
                config,
            ),
        forall|j: int|
            0 <= j < cards.len() ==> lo <= #[trigger] order_key(cards[j].rank, config) < hi,
    ensures
        cards.len() <= hi - lo,
{
    broadcast use vstd::set_lib::group_set_lib_default;

    let keys = Seq::new(cards.len(), |j: int| order_key(cards[j].rank, config));
    assert(keys.no_duplicates());
    keys.unique_seq_to_set();
    let range = vstd::set_lib::set_int_range(lo, hi);
    vstd::set_lib::lemma_int_range(lo, hi);
    assert(keys.to_set().subset_of(range)) by {
        assert forall|x: int| keys.to_set().contains(x) implies range.contains(x) by {
            let j = choose|j: int| 0 <= j < keys.len() && keys[j] == x;
        }
    }
    vstd::set_lib::lemma_len_subset(keys.to_set(), range);
}

/// The first non-wildcard card of `pool` whose ordering key is `key`.
fn find_natural_with_key(pool: &Vec<Card>, key: u8, config: &DeckConfig) -> (r: Option<usize>)
    ensures
        (match r {
            Some(i) => {
                &&& (i as int) < pool@.len()
                &&& !is_wild(pool@[i as int], *config)
                &&& order_key(pool@[i as int].rank, *config) == key as int
            },
            None => forall|j: int|
                0 <= j < pool@.len() ==> is_wild(pool@[j], *config) || order_key(
                    pool@[j].rank,
                    *config,
                ) != key as int,
        }),
{
    let n = pool.len();
    let mut j: usize = 0;
    while j < n
        invariant
            n == pool@.len(),
            j <= n,
            forall|t: int|
                0 <= t < j ==> is_wild(pool@[t], *config) || order_key(pool@[t].rank, *config)
                    != key as int,
        decreases n - j,
    {
        let card = pool[j];
        if !card_is_wild(&card, config) && order_key_value(card.rank, config) == key {
            return Some(j);
        }
        j = j + 1;
    }
    None
}

/// Some non-wildcard card of `pool` (the first).
fn find_natural(pool: &Vec<Card>, config: &DeckConfig) -> (r: Option<usize>)
    ensures
        (match r {
            Some(i) => {
                &&& (i as int) < pool@.len()
                &&& !is_wild(pool@[i as int], *config)
            },
            None => forall|j: int| 0 <= j < pool@.len() ==> is_wild(pool@[j], *config),
        }),
{
    let n = pool.len();
    let mut j: usize = 0;
    while j < n
        invariant
            n == pool@.len(),
            j <= n,
            forall|t: int| 0 <= t < j ==> is_wild(pool@[t], *config),
        decreases n - j,
    {
        let card = pool[j];
        if !card_is_wild(&card, config) {
            return Some(j);
        }
        j = j + 1;
    }
    None
}

/// The first wildcard card of `pool`.
fn find_wild(pool: &Vec<Card>, config: &DeckConfig) -> (r: Option<usize>)
    ensures
        (match r {
            Some(i) => {
                &&& (i as int) < pool@.len()
                &&& is_wild(pool@[i as int], *config)
            },
            None => forall|j: int| 0 <= j < pool@.len() ==> !is_wild(pool@[j], *config),
        }),
{
    let n = pool.len();
    let mut j: usize = 0;
    while j < n
        invariant
            n == pool@.len(),
            j <= n,
            forall|t: int| 0 <= t < j ==> !is_wild(pool@[t], *config),
        decreases n - j,
    {
        let card = pool[j];
        if card_is_wild(&card, config) {
            return Some(j);
        }
        j = j + 1;
    }
    None
}

impl Meldable for Run {
    /// Forms a run: the non-wildcard cards must share one suit and, sorted by
    /// the deck's circular rank ordering, be exactly one key apart, a selected
    /// wildcard standing in for each missing key; spare wildcards extend the
    /// run past its top card.
    ///
    /// On failure the hand is left exactly as it was, and the error says
    /// which check failed; the checks run in the order: indices in bounds,
    /// indices distinct, at least 3 cards, not all wildcards, run shape.
    #[verifier::rlimit(50)]
    fn new(hand_cards: &mut Vec<Card>, indices: &Vec<usize>, config: &DeckConfig) -> (r: Result<
        Run,
        MeldError,
    >)
        ensures
            (match r {
                Ok(run) => {
                    let sel = selected_cards(old(hand_cards)@, indices@);
                    &&& indices_in_bounds(old(hand_cards)@, indices@)
                    &&& indices_distinct(indices@)
                    &&& valid_run(sel, *config)
                    &&& run_wf(run, *config)
                    &&& run.cards@.to_multiset() == sel.to_multiset()
                    &&& run.cards@.len() == indices@.len()
                    &&& run_low(run, *config) == min_natural_key(sel, *config)
                    &&& forall|k: int|
                        0 <= k < sel.len() && !is_wild(sel[k], *config) ==> run.suit == sel[k].suit
                    &&& final(hand_cards)@ == removed_cards(old(hand_cards)@, indices@)
                    &&& final(hand_cards)@.len() + indices@.len() == old(hand_cards)@.len()
                },
                Err(e) => {
                    &&& final(hand_cards)@ == old(hand_cards)@
                    &&& {
                        let sel = selected_cards(old(hand_cards)@, indices@);
                        let in_bounds = indices_in_bounds(old(hand_cards)@, indices@);
                        let distinct = indices_distinct(indices@);
                        &&& !(in_bounds && distinct && valid_run(sel, *config))
                        &&& (e == MeldError::IndexOutOfBounds <==> !in_bounds)
                        &&& (e == MeldError::RepeatedIndex <==> in_bounds && !distinct)
                        &&& (e == MeldError::TooFewCards <==> in_bounds && distinct && sel.len()
                            < 3)
                        &&& (e == MeldError::WildcardsOnly <==> in_bounds && distinct && sel.len()
                            >= 3 && (forall|k: int|
                            0 <= k < sel.len() ==> is_wild(sel[k], *config)))
                        &&& (e == MeldError::NotARun <==> in_bounds && distinct && sel.len() >= 3
                            && (exists|k: int| 0 <= k < sel.len() && !is_wild(sel[k], *config))
                            && !valid_run(sel, *config))
                    }
                },
            }),
    {
        let cards = match gather_cards(hand_cards, indices) {
            Ok(cards) => cards,
            Err(e) => {
                return Err(e);
            },
        };
        if !check_indices_distinct(indices) {
            return Err(MeldError::RepeatedIndex);
        }
        if cards.len() < 3 {
            return Err(MeldError::TooFewCards);
        }
        let n = cards.len();
        let a = match find_natural(&cards, config) {
            Some(a) => a,
            None => {
                return Err(MeldError::WildcardsOnly);
            },
        };
        let anchor_suit = cards[a].suit;

        // Every non-wildcard card must be of the anchor's suit.
        let mut k: usize = 0;
        while k < n
            invariant
                hand_cards@ == old(hand_cards)@,
                cards@ == selected_cards(old(hand_cards)@, indices@),
                indices_in_bounds(old(hand_cards)@, indices@),
                indices_distinct(indices@),
                n == cards@.len(),
                n >= 3,
                k <= n,
                (a as int) < n,
                !is_wild(cards@[a as int], *config),
                anchor_suit == cards@[a as int].suit,
                forall|t: int|
                    0 <= t < k && !is_wild(cards@[t], *config) ==> cards@[t].suit == anchor_suit,
            decreases n - k,
        {
            let card = cards[k];
            if !card_is_wild(&card, config) && !(card.suit == anchor_suit) {
                proof {
                    let sel = selected_cards(old(hand_cards)@, indices@);
                    let lo = if (a as int) < k as int {
                        a as int
                    } else {
                        k as int
                    };
                    let hi = if (a as int) < k as int {
                        k as int
                    } else {
                        a as int
                    };
                    assert(!valid_run(sel, *config)) by {
                        if valid_run(sel, *config) {
                            assert(sel[lo].suit == sel[hi].suit);
                        }
                    }
                }
                return Err(MeldError::NotARun);
            }
            k = k + 1;
        }

        // The non-wildcard cards must carry pairwise distinct ordering keys.
        let mut k1: usize = 0;
        while k1 < n
            invariant
                hand_cards@ == old(hand_cards)@,
                cards@ == selected_cards(old(hand_cards)@, indices@),
                indices_in_bounds(old(hand_cards)@, indices@),
                indices_distinct(indices@),
                n == cards@.len(),
                n >= 3,
                (a as int) < n,
                !is_wild(cards@[a as int], *config),
                k1 <= n,
                forall|t1: int, t2: int|
                    0 <= t1 < t2 < n && t1 < k1 && !is_wild(cards@[t1], *config) && !is_wild(
                        cards@[t2],
                        *config,
                    ) ==> order_key(cards@[t1].rank, *config) != order_key(
                        cards@[t2].rank,
                        *config,
                    ),
            decreases n - k1,
        {
            let c1 = cards[k1];
            if !card_is_wild(&c1, config) {
                let key1 = order_key_value(c1.rank, config);
                let mut k2: usize = k1 + 1;
                while k2 < n
                    invariant
                        hand_cards@ == old(hand_cards)@,
                        cards@ == selected_cards(old(hand_cards)@, indices@),
                        indices_in_bounds(old(hand_cards)@, indices@),
                        indices_distinct(indices@),
                        n == cards@.len(),
                        n >= 3,
                        (a as int) < n,
                        !is_wild(cards@[a as int], *config),
                        k1 < k2 <= n,
                        (k1 as int) < n,
                        c1 == cards@[k1 as int],
                        !is_wild(c1, *config),
                        key1 as int == order_key(c1.rank, *config),
                        forall|t2: int|
                            k1 < t2 < k2 && !is_wild(cards@[t2], *config) ==> order_key(
                                cards@[t2].rank,
                                *config,
                            ) != key1 as int,
                    decreases n - k2,
                {
                    let c2 = cards[k2];
                    if !card_is_wild(&c2, config) && order_key_value(c2.rank, config) == key1 {
                        proof {
                            let sel = selected_cards(old(hand_cards)@, indices@);
                            assert(!valid_run(sel, *config)) by {
                                if valid_run(sel, *config) {
                                    assert(order_key(sel[k1 as int].rank, *config) != order_key(
                                        sel[k2 as int].rank,
                                        *config,
                                    ));
                                }
                            }
                        }
                        return Err(MeldError::NotARun);
                    }
                    k2 = k2 + 1;
                }
            }
            k1 = k1 + 1;
        }

        // The span of natural keys, bottom and top.
        let mut mn: i16 = 14;
        let mut mx: i16 = -1;
        let mut mn_pos: usize = 0;
        let mut k: usize = 0;
        proof {
            assert(cards@.take(0) =~= Seq::<Card>::empty());
        }
        while k < n
            invariant
                n == cards@.len(),
                k <= n,
                mn as int == min_natural_key(cards@.take(k as int), *config),
                mx as int == max_natural_key(cards@.take(k as int), *config),
                mn < 14 ==> (mn_pos as int) < k as int && !is_wild(cards@[mn_pos as int], *config)
                    && order_key(cards@[mn_pos as int].rank, *config) == mn as int,
            decreases n - k,
        {
            let card = cards[k];
            proof {
                assert(cards@.take(k + 1).drop_last() =~= cards@.take(k as int));
                assert(cards@.take(k + 1).last() == cards@[k as int]);
            }
            if !card_is_wild(&card, config) {
                let ck = order_key_value(card.rank, config) as i16;
                if ck < mn {
                    mn = ck;
                    mn_pos = k;
                }
                if ck > mx {
                    mx = ck;
                }
            }
            k = k + 1;
        }
        proof {
            assert(cards@.take(n as int) =~= cards@);
            lemma_natural_key_bounds(cards@, *config, a as int);
        }
        if ((mx - mn + 1) as usize) > n {
            return Err(MeldError::NotARun);
        }

        // Build the run: for each key of the span take the one natural card
        // that carries it, or a wildcard where none does; spare wildcards
        // extend the top.
        let mut pool: Vec<Card> = Vec::new();
        let mut i: usize = 0;
        while i < n
            invariant
                n == cards@.len(),
                i <= n,
                pool@ == cards@.take(i as int),
            decreases n - i,
        {
            pool.push(cards[i]);
            proof {
                assert(cards@.take(i + 1) =~= cards@.take(i as int).push(cards@[i as int]));
            }
            i = i + 1;
        }
        let ghost sel = cards@;
        let mut result: Vec<Card> = Vec::new();
        proof {
            broadcast use vstd::seq_lib::group_to_multiset_ensures;
            broadcast use vstd::multiset::lemma_multiset_empty_len;
            broadcast use vstd::multiset::group_multiset_axioms;

            assert(pool@ =~= cards@);
            assert(result@.to_multiset().len() == 0);
            assert(result@.to_multiset() =~= Multiset::<Card>::empty());
            assert(result@.to_multiset().add(pool@.to_multiset()) =~= sel.to_multiset());
            assert forall|j: int|
                0 <= j < pool@.len() && !is_wild(pool@[j], *config) implies mn as int <= order_key(
                pool@[j].rank,
                *config,
            ) <= mx as int by {
                lemma_natural_key_bounds(cards@, *config, j);
            }
        }
        let mut key: i16 = mn;
        while key <= mx
            invariant
                n == sel.len(),
                n >= 3,
                0 <= mn <= key <= mx + 1,
                mx <= 13,
                mx - mn + 1 <= n,
                result@.len() == key - mn,
                pool@.len() + result@.len() == n,
                result@.to_multiset().add(pool@.to_multiset()) == sel.to_multiset(),
                result@.len() == 0 ==> pool@ == sel && key == mn,
                result@.len() == 0 ==> (mn_pos as int) < n && !is_wild(sel[mn_pos as int], *config)
                    && order_key(sel[mn_pos as int].rank, *config) == mn as int,
                result@.len() > 0 ==> !is_wild(result@[0], *config),
                forall|p: int|
                    0 <= p < result@.len() && !is_wild(result@[p], *config) ==> result@[p].suit
                        == anchor_suit && order_key(result@[p].rank, *config) == mn + p,
                forall|j: int|
                    0 <= j < pool@.len() && !is_wild(pool@[j], *config) ==> pool@[j].suit
                        == anchor_suit && key as int <= order_key(pool@[j].rank, *config)
                        <= mx as int,
                forall|j1: int, j2: int|
                    0 <= j1 < j2 < pool@.len() && !is_wild(pool@[j1], *config) && !is_wild(
                        pool@[j2],
                        *config,
                    ) ==> order_key(pool@[j1].rank, *config) != order_key(
                        pool@[j2].rank,
                        *config,
                    ),
            decreases mx + 1 - key,
        {
            broadcast use vstd::seq_lib::group_to_multiset_ensures;
            broadcast use vstd::seq_lib::to_multiset_remove;
            broadcast use vstd::multiset::group_multiset_axioms;

            match find_natural_with_key(&pool, key as u8, config) {
                Some(idx) => {
                    let c = pool.remove(idx);
                    result.push(c);
                },
                None => {
                    match find_wild(&pool, config) {
                        Some(w) => {
                            proof {
                                if result@.len() == 0 {
                                    assert(!is_wild(pool@[mn_pos as int], *config) && order_key(
                                        pool@[mn_pos as int].rank,
                                        *config,
                                    ) == key as int);
                                }
                            }
                            let c = pool.remove(w);
                            result.push(c);
                        },
                        None => {
                            // unreachable: with the span no larger than the
                            // selection, a missing key always leaves a
                            // wildcard in the pool
                            proof {
                                assert(forall|j: int|
                                    0 <= j < pool@.len() ==> !is_wild(pool@[j], *config));
                                assert(forall|j: int|
                                    0 <= j < pool@.len() ==> key as int + 1 <= #[trigger]
                                        order_key(pool@[j].rank, *config) < mx as int + 1);
                                lemma_distinct_keys_bound(
                                    pool@,
                                    *config,
                                    key as int + 1,
                                    mx as int + 1,
                                );
                                assert(false);
                            }
                            return Err(MeldError::NotARun);
                        },
                    }
                },
            }
            key = key + 1;
        }

        // Everything left in the pool is a wildcard; append it to the top.
        while pool.len() > 0
            invariant
                n == sel.len(),
                result@.len() >= 1,
                pool@.len() + result@.len() == n,
                result@.to_multiset().add(pool@.to_multiset()) == sel.to_multiset(),
                result@.len() > 0 ==> !is_wild(result@[0], *config),
                forall|j: int| 0 <= j < pool@.len() ==> is_wild(pool@[j], *config),
                forall|p: int|
                    0 <= p < result@.len() && !is_wild(result@[p], *config) ==> result@[p].suit
                        == anchor_suit && order_key(result@[p].rank, *config) == mn + p,
            decreases pool@.len(),
        {
            broadcast use vstd::seq_lib::group_to_multiset_ensures;
            broadcast use vstd::seq_lib::to_multiset_remove;
            broadcast use vstd::multiset::group_multiset_axioms;

            let c = pool.remove(0);
            result.push(c);
        }
        proof {
            broadcast use vstd::seq_lib::group_to_multiset_ensures;
            broadcast use vstd::multiset::lemma_multiset_empty_len;
            broadcast use vstd::multiset::group_multiset_axioms;

            assert(pool@.to_multiset().len() == 0);
            assert(pool@.to_multiset() =~= Multiset::<Card>::empty());
            assert(result@.to_multiset() =~= sel.to_multiset());
        }

        remove_chosen(hand_cards, indices);
        proof {
            lemma_removed_cards_len(old(hand_cards)@, indices@);
        }
        Ok(Run { cards: result, suit: anchor_suit })
    }

    /// Lays one card off onto the run: a wildcard extends the run at the top;
    /// a natural card must match the run's suit and sit exactly one key below
    /// the run's bottom card (it becomes the new bottom) or one above its top
    /// position (it becomes the new top). On failure neither the hand nor the
    /// run changes.
    fn layoff_card(
        &mut self,
        hand_cards: &mut Vec<Card>,
        index: usize,
        config: &DeckConfig,
    ) -> (r: Result<(), MeldError>)
        ensures
            final(self).suit == old(self).suit,
            (match r {
                Ok(()) => {
                    &&& (index as int) < old(hand_cards)@.len()
                    &&& {
                        let card = old(hand_cards)@[index as int];
                        &&& run_accepts(*old(self), card, *config)
                        &&& final(hand_cards)@ == old(hand_cards)@.remove(index as int)
                        &&& final(self).cards@ == (if !is_wild(card, *config) && order_key(
                            card.rank,
                            *config,
                        ) + 1 == run_low(*old(self), *config) {
                            seq![card] + old(self).cards@
                        } else {
                            old(self).cards@.push(card)
                        })
                    }
                },
                Err(e) => {
                    &&& final(self).cards@ == old(self).cards@
                    &&& final(hand_cards)@ == old(hand_cards)@
                    &&& (e == MeldError::IndexOutOfBounds || e == MeldError::CannotLayoff)
                    &&& (e == MeldError::IndexOutOfBounds <==> (index as int) >= old(
                        hand_cards,
                    )@.len())
                    &&& (e == MeldError::CannotLayoff <==> (index as int) < old(hand_cards)@.len()
                        && !run_accepts(*old(self), old(hand_cards)@[index as int], *config))
                },
            }),
            run_wf(*old(self), *config) && r is Ok ==> run_wf(*final(self), *config),
    {
        if index >= hand_cards.len() {
            return Err(MeldError::IndexOutOfBounds);
        }
        let card = hand_cards[index];
        if card_is_wild(&card, config) {
            let card = hand_cards.remove(index);
            self.cards.push(card);
            proof {
                lemma_run_push_wf(*old(self), *self, card, *config);
            }
            return Ok(());
        }
        if self.cards.len() == 0 || !(card.suit == self.suit) {
            return Err(MeldError::CannotLayoff);
        }
        let ck = order_key_value(card.rank, config);
        let low = order_key_value(self.cards[0].rank, config);
        if ck + 1 == low {
            let card = hand_cards.remove(index);
            self.cards.insert(0, card);
            proof {
                assert(self.cards@ =~= seq![card] + old(self).cards@);
                if run_wf(*old(self), *config) {
                    assert forall|k: int|
                        0 <= k < self.cards@.len() && !is_wild(self.cards@[k], *config) implies
                    self.cards@[k].suit == self.suit && order_key(self.cards@[k].rank, *config)
                        == run_low(*self, *config) + k by {
                        if k > 0 {
                            assert(self.cards@[k] == old(self).cards@[k - 1]);
                        }
                    }
                }
            }
            return Ok(());
        }
        if (ck as usize) >= (low as usize) && (ck as usize) - (low as usize) == self.cards.len() {
            let card = hand_cards.remove(index);
            self.cards.push(card);
            proof {
                lemma_run_push_wf(*old(self), *self, card, *config);
            }
            return Ok(());
        }
        Err(MeldError::CannotLayoff)
    }
}

/// A Rummy meld: a [`SetMeld`] (3+ cards of one rank) or a [`Run`] (3+
/// same-suit cards of consecutive rank), wildcards allowed in both.
#[derive(Debug)]
pub enum Meld {
    SetMeld(SetMeld),
    RunMeld(Run),
}

/// What every meld holds of itself, relative to the deck configuration it was
/// formed under.
pub open spec fn meld_wf(m: Meld, config: DeckConfig) -> bool {
    match m {
        Meld::SetMeld(s) => set_wf(s, config),
        Meld::RunMeld(r) => run_wf(r, config),
    }
}

/// The cards a meld holds.
pub open spec fn meld_cards(m: Meld) -> Seq<Card> {
    match m {
        Meld::SetMeld(s) => s.cards@,
        Meld::RunMeld(r) => r.cards@,
    }
}

/// Whether the meld can take `card` as a layoff: a set takes its own rank or
/// a wildcard; a run takes a wildcard, or a card of its suit one key beyond
/// either end.
pub open spec fn meld_accepts(m: Meld, card: Card, config: DeckConfig) -> bool {
    match m {
        Meld::SetMeld(s) => card.rank == s.set_rank || is_wild(card, config),
        Meld::RunMeld(r) => run_accepts(r, card, config),
    }
}

impl Meldable for Meld {
    /// Forms a meld from the selected cards: set validation is attempted
    /// first, then run validation; whichever succeeds removes the selected
    /// cards from the hand. If neither succeeds the hand is untouched and the
    /// run attempt's rejection reason is returned (the index, size and
    /// all-wildcard failures coincide for both shapes).
    fn new(hand_cards: &mut Vec<Card>, indices: &Vec<usize>, config: &DeckConfig) -> (r: Result<
        Meld,
        MeldError,
    >)
        ensures
            (match r {
                Ok(m) => {
                    let sel = selected_cards(old(hand_cards)@, indices@);
                    &&& indices_in_bounds(old(hand_cards)@, indices@)
                    &&& indices_distinct(indices@)
                    &&& meld_wf(m, *config)
                    &&& final(hand_cards)@ == removed_cards(old(hand_cards)@, indices@)
                    &&& final(hand_cards)@.len() + indices@.len() == old(hand_cards)@.len()
                    &&& (valid_set(sel, *config) <==> m is SetMeld)
                    &&& (m matches Meld::SetMeld(s) ==> s.cards@ == sel && s.set_rank == anchor_rank(
                        sel,
                        *config,
                    ))
                    &&& (m matches Meld::RunMeld(run) ==> {
                        &&& valid_run(sel, *config)
                        &&& run.cards@.to_multiset() == sel.to_multiset()
                        &&& run.cards@.len() == sel.len()
                        &&& run_low(run, *config) == min_natural_key(sel, *config)
                        &&& forall|k: int|
                            0 <= k < sel.len() && !is_wild(sel[k], *config) ==> run.suit
                                == sel[k].suit
                    })
                },
                Err(e) => {
                    &&& final(hand_cards)@ == old(hand_cards)@
                    &&& {
                        let sel = selected_cards(old(hand_cards)@, indices@);
                        let in_bounds = indices_in_bounds(old(hand_cards)@, indices@);
                        let distinct = indices_distinct(indices@);
                        &&& (in_bounds && distinct ==> !valid_set(sel, *config) && !valid_run(
                            sel,
                            *config,
                        ))
                        &&& (e == MeldError::IndexOutOfBounds <==> !in_bounds)
                        &&& (e == MeldError::RepeatedIndex <==> in_bounds && !distinct)
                        &&& (e == MeldError::TooFewCards <==> in_bounds && distinct && sel.len()
                            < 3)
                        &&& (e == MeldError::WildcardsOnly <==> in_bounds && distinct && sel.len()
                            >= 3 && (forall|k: int|
                            0 <= k < sel.len() ==> is_wild(sel[k], *config)))
                        &&& (e == MeldError::NotARun <==> in_bounds && distinct && sel.len() >= 3
                            && (exists|k: int| 0 <= k < sel.len() && !is_wild(sel[k], *config))
                            && !valid_run(sel, *config))
                    }
                },
            }),
    {
        match SetMeld::new(hand_cards, indices, config) {
            Ok(set) => Ok(Meld::SetMeld(set)),
            Err(set_error) => {
                if matches!(set_error, MeldError::NotASet) {
                    match Run::new(hand_cards, indices, config) {
                        Ok(run) => Ok(Meld::RunMeld(run)),
                        Err(run_error) => Err(run_error),
                    }
                } else {
                    Err(set_error)
                }
            },
        }
    }

    /// Lays one card off onto the meld, whichever shape it is; on failure
    /// neither the hand nor the meld changes.
    fn layoff_card(
        &mut self,
        hand_cards: &mut Vec<Card>,
        index: usize,
        config: &DeckConfig,
    ) -> (r: Result<(), MeldError>)
        ensures
            *old(self) is SetMeld <==> *final(self) is SetMeld,
            (match r {
                Ok(()) => {
                    &&& (index as int) < old(hand_cards)@.len()
                    &&& {
                        let card = old(hand_cards)@[index as int];
                        &&& meld_accepts(*old(self), card, *config)
                        &&& final(hand_cards)@ == old(hand_cards)@.remove(index as int)
                        &&& (*old(self) matches Meld::SetMeld(s) ==> *final(self) matches Meld::SetMeld(s2)
                            && s2.set_rank == s.set_rank && s2.cards@ == s.cards@.push(card))
                        &&& (*old(self) matches Meld::RunMeld(run) ==> *final(self) matches Meld::RunMeld(
                            r2,
                        ) && r2.suit == run.suit && r2.cards@ == (if !is_wild(card, *config)
                            && order_key(card.rank, *config) + 1 == run_low(run, *config) {
                            seq![card] + run.cards@
                        } else {
                            run.cards@.push(card)
                        }))
                    }
                },
                Err(e) => {
                    &&& (e == MeldError::IndexOutOfBounds || e == MeldError::CannotLayoff)
                    &&& meld_cards(*final(self)) == meld_cards(*old(self))
                    &&& (*old(self) matches Meld::SetMeld(s) ==> *final(self) matches
                        Meld::SetMeld(s2) && s2.set_rank == s.set_rank)
                    &&& (*old(self) matches Meld::RunMeld(run) ==> *final(self) matches
                        Meld::RunMeld(r2) && r2.suit == run.suit)
                    &&& final(hand_cards)@ == old(hand_cards)@
                    &&& (e == MeldError::IndexOutOfBounds <==> (index as int) >= old(
                        hand_cards,
                    )@.len())
                    &&& (e == MeldError::CannotLayoff <==> (index as int) < old(hand_cards)@.len()
                        && !meld_accepts(*old(self), old(hand_cards)@[index as int], *config))
                },
            }),
            meld_wf(*old(self), *config) && r is Ok ==> meld_wf(*final(self), *config),
    {
        match self {
            Meld::SetMeld(set) => set.layoff_card(hand_cards, index, config),
            Meld::RunMeld(run) => run.layoff_card(hand_cards, index, config),
        }
    }
}

/// Pushing a card onto the top of a run keeps it well-formed, provided the
/// card is a wildcard or carries exactly the key of the new top position.
proof fn lemma_run_push_wf(before: Run, after: Run, card: Card, config: DeckConfig)
    requires
        after.cards@ == before.cards@.push(card),
        after.suit == before.suit,
        !is_wild(card, config) ==> card.suit == before.suit && before.cards@.len() > 0
            && order_key(card.rank, config) == run_low(before, config) + before.cards@.len(),
    ensures
        run_wf(before, config) ==> run_wf(after, config),
{
    if run_wf(before, config) {
        assert(after.cards@[0] == before.cards@[0]);
        assert forall|k: int|
            0 <= k < after.cards@.len() && !is_wild(after.cards@[k], config) implies
        after.cards@[k].suit == after.suit && order_key(after.cards@[k].rank, config) == run_low(
            after,
            config,
        ) + k by {
            if k < before.cards@.len() {
                assert(after.cards@[k] == before.cards@[k]);
            }
        }
    }
}

/// A layoff adds exactly the laid-off card to the meld's multiset of cards,
/// whether it went to the top or the bottom.
pub proof fn lemma_meld_layoff_multiset(m_old: Meld, m_new: Meld, card: Card)
    requires
        meld_cards(m_new) == meld_cards(m_old).push(card) || meld_cards(m_new) == seq![card]
            + meld_cards(m_old),
    ensures
        meld_cards(m_new).to_multiset() == meld_cards(m_old).to_multiset().insert(card),
{
    broadcast use vstd::seq_lib::group_to_multiset_ensures;
    broadcast use vstd::seq_lib::to_multiset_insert;
    broadcast use vstd::multiset::group_multiset_axioms;

    if meld_cards(m_new) == meld_cards(m_old).push(card) {
        assert(meld_cards(m_old).push(card).to_multiset() =~= meld_cards(
            m_old,
        ).to_multiset().insert(card));
    } else {
        assert(seq![card] + meld_cards(m_old) =~= meld_cards(m_old).insert(0, card));
        assert(meld_cards(m_old).insert(0, card).to_multiset() =~= meld_cards(
            m_old,
        ).to_multiset().insert(card));
    }
}

} // verus!
