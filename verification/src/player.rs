//! Per-seat player state: hand, formed melds, activity flag, and the round
//! the player joined in.

use vstd::prelude::*;
use crate::card::Card;
use crate::meld::Meld;

verus! {

/// A Rummy player: one seat at the table. Seats are never removed, only
/// marked inactive, so a player who quits can rejoin in a later round.
#[derive(Debug)]
pub struct Player {
    pub id: usize,
    pub cards: Vec<Card>,
    pub melds: Vec<Meld>,
    pub active: bool,
    pub joined_in_round: usize,
}

impl Player {
    /// Creates a new player with an empty hand and no melds.
    pub fn new(id: usize, active: bool, joined_in_round: usize) -> (p: Player)
        ensures
            p.id == id,
            p.active == active,
            p.joined_in_round == joined_in_round,
            p.cards@ == Seq::<Card>::empty(),
            p.melds@ == Seq::<Meld>::empty(),
    {
        Player { id, cards: Vec::new(), melds: Vec::new(), active, joined_in_round }
    }
}

} // verus!
