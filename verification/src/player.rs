use crate::hand::{Hand, HandStatus};
use vstd::prelude::*;

verus! {

/// One seat at the table: the human seat (financially tracked) or an
/// AI seat (plays by the book, bets nothing).
#[derive(Debug, Clone)]
pub struct Player {
    pub id: usize,
    pub name: String,
    pub is_user: bool,
    pub hands: Vec<Hand>,
    /// Set once per round when the human seat first splits, so the split
    /// statistic counts original hands rather than every split taken.
    pub hand_involved_in_split_this_round: bool,
    /// The same, for doubling.
    pub hand_involved_in_double_this_round: bool,
}

impl Player {
    /// The human seat, opening the round with one empty active hand
    /// carrying `initial_bet` cents.
    pub fn new_user(id: usize, name: String, initial_bet: i64) -> (p: Player)
        ensures
            p.id == id,
            p.name == name,
            p.is_user,
            p.hands@.len() == 1,
            p.hands@[0].cards@.len() == 0,
            p.hands@[0].bet == initial_bet,
            p.hands@[0].status == HandStatus::Active,
            !p.hands@[0].is_split_ace,
            p.hands@[0].actions_taken@.len() == 0,
            !p.hand_involved_in_split_this_round,
            !p.hand_involved_in_double_this_round,
    {
        let mut hands: Vec<Hand> = Vec::new();
        hands.push(Hand::new(initial_bet));
        Player {
            id,
            name,
            is_user: true,
            hands,
            hand_involved_in_split_this_round: false,
            hand_involved_in_double_this_round: false,
        }
    }

    /// An AI seat; its bet is 0 and never tracked financially.
    pub fn new_ai(id: usize, name: String) -> (p: Player)
        ensures
            p.id == id,
            p.name == name,
            !p.is_user,
            p.hands@.len() == 1,
            p.hands@[0].cards@.len() == 0,
            p.hands@[0].bet == 0,
            p.hands@[0].status == HandStatus::Active,
            !p.hands@[0].is_split_ace,
            p.hands@[0].actions_taken@.len() == 0,
            !p.hand_involved_in_split_this_round,
            !p.hand_involved_in_double_this_round,
    {
        let mut hands: Vec<Hand> = Vec::new();
        hands.push(Hand::new(0));
        Player {
            id,
            name,
            is_user: false,
            hands,
            hand_involved_in_split_this_round: false,
            hand_involved_in_double_this_round: false,
        }
    }

    /// Clears the human seat's per-round statistics flags.
    pub fn reset_round_flags(&mut self)
        ensures
            final(self).id == old(self).id,
            final(self).name == old(self).name,
            final(self).is_user == old(self).is_user,
            final(self).hands == old(self).hands,
            old(self).is_user ==> !final(self).hand_involved_in_split_this_round
                && !final(self).hand_involved_in_double_this_round,
            !old(self).is_user ==> *final(self) == *old(self),
    {
        if self.is_user {
            self.hand_involved_in_split_this_round = false;
            self.hand_involved_in_double_this_round = false;
        }
    }
}

/// The dealer: a single hand, no bet semantics.
#[derive(Debug, Clone)]
pub struct Dealer {
    pub hand: Hand,
}

impl Dealer {
    pub fn new() -> (d: Dealer)
        ensures
            d.hand.cards@.len() == 0,
            d.hand.bet == 0,
            d.hand.status == HandStatus::Active,
            !d.hand.is_split_ace,
            d.hand.actions_taken@.len() == 0,
    {
        Dealer { hand: Hand::new(0) }
    }
}

} // verus!
