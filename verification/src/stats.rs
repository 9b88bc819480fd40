use crate::config;
use vstd::prelude::*;

verus! {

/// Session-wide counters and money totals for the human seat. Money is in
/// integer cents; averaging and report formatting belong to the consumers
/// of this record, outside the engine.
#[derive(Debug, Clone)]
pub struct SessionStats {
    pub run_id: u64,
    pub mode: String,
    /// Only set for simulation sessions.
    pub target_iterations: Option<u32>,
    /// The human seat's main (pre-split) hands played.
    pub hands_played_session: u32,
    pub blackjacks_dealt_player: u32,
    pub times_split_chosen: u32,
    /// Original hands that were split at least once this session.
    pub hands_involved_in_split: u32,
    /// Total individual hands existing after splits, summed per round.
    pub total_hands_after_splits: u32,
    pub times_doubled_chosen: u32,
    pub hands_involved_in_double: u32,
    pub total_wins: u32,
    pub total_losses: u32,
    pub total_pushes: u32,
    /// Net cents won or lost on hands that were part of a split.
    pub earnings_from_split_hands: i64,
    pub num_resolved_split_hands: u32,
    /// Net cents won or lost on doubled hands.
    pub earnings_from_doubled_hands: i64,
    pub num_resolved_doubled_hands: u32,
    pub initial_default_bet: i64,
    pub initial_balance: i64,
    pub final_balance: i64,
    pub highest_balance_session: i64,
    pub lowest_balance_session: i64,
    /// Set by `calculate_final_metrics`.
    pub net_profit_loss: i64,
}

impl SessionStats {
    /// A fresh record: every counter zero, every balance field at the
    /// starting balance.
    pub fn new(run_id: u64, mode_str: String, start_bal: i64) -> (s: SessionStats)
        ensures
            s.run_id == run_id,
            s.mode == mode_str,
            s.target_iterations is None,
            s.hands_played_session == 0,
            s.blackjacks_dealt_player == 0,
            s.times_split_chosen == 0,
            s.hands_involved_in_split == 0,
            s.total_hands_after_splits == 0,
            s.times_doubled_chosen == 0,
            s.hands_involved_in_double == 0,
            s.total_wins == 0,
            s.total_losses == 0,
            s.total_pushes == 0,
            s.earnings_from_split_hands == 0,
            s.num_resolved_split_hands == 0,
            s.earnings_from_doubled_hands == 0,
            s.num_resolved_doubled_hands == 0,
            s.initial_default_bet == config::DEFAULT_BET,
            s.initial_balance == start_bal,
            s.final_balance == start_bal,
            s.highest_balance_session == start_bal,
            s.lowest_balance_session == start_bal,
            s.net_profit_loss == 0,
    {
        SessionStats {
            run_id,
            mode: mode_str,
            target_iterations: None,
            hands_played_session: 0,
            blackjacks_dealt_player: 0,
            times_split_chosen: 0,
            hands_involved_in_split: 0,
            total_hands_after_splits: 0,
            times_doubled_chosen: 0,
            hands_involved_in_double: 0,
            total_wins: 0,
            total_losses: 0,
            total_pushes: 0,
            earnings_from_split_hands: 0,
            num_resolved_split_hands: 0,
            earnings_from_doubled_hands: 0,
            num_resolved_doubled_hands: 0,
            initial_default_bet: config::DEFAULT_BET,
            initial_balance: start_bal,
            final_balance: start_bal,
            highest_balance_session: start_bal,
            lowest_balance_session: start_bal,
            net_profit_loss: 0,
        }
    }

    /// Computes the session's net profit or loss from the recorded initial
    /// and final balances. Per-hand averages are left to the reporting
    /// collaborator, which works in fractional units.
    pub fn calculate_final_metrics(&mut self)
        requires
            -config::MONEY_CAP <= old(self).final_balance <= config::MONEY_CAP,
            -config::MONEY_CAP <= old(self).initial_balance <= config::MONEY_CAP,
        ensures
            final(self).net_profit_loss == old(self).final_balance - old(self).initial_balance,
            *final(self) == (SessionStats {
                net_profit_loss: final(self).net_profit_loss,
                ..*old(self)
            }),
    {
        self.net_profit_loss = self.final_balance - self.initial_balance;
    }

    /// Widens the running high/low balance watermarks to cover
    /// `current_balance`.
    pub fn update_balance_extremes(&mut self, current_balance: i64)
        ensures
            final(self).highest_balance_session == if current_balance > old(
                self,
            ).highest_balance_session {
                current_balance
            } else {
                old(self).highest_balance_session
            },
            final(self).lowest_balance_session == if current_balance < old(
                self,
            ).lowest_balance_session {
                current_balance
            } else {
                old(self).lowest_balance_session
            },
            *final(self) == (SessionStats {
                highest_balance_session: final(self).highest_balance_session,
                lowest_balance_session: final(self).lowest_balance_session,
                ..*old(self)
            }),
    {
        if current_balance > self.highest_balance_session {
            self.highest_balance_session = current_balance;
        }
        if current_balance < self.lowest_balance_session {
            self.lowest_balance_session = current_balance;
        }
    }
}

} // verus!
