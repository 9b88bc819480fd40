use crate::card_deck::{spec_is_ace, spec_pair_value, spec_rank_value, Card};
use vstd::prelude::*;

verus! {

/// The lifecycle of a hand within one round.
#[derive(Debug, Clone, Copy, PartialEq, Eq, Structural)]
pub enum HandStatus {
    /// Still playing.
    Active,
    /// The player chose to stand.
    Stood,
    /// Hand value went over 21.
    Busted,
    /// The player doubled down; the turn is over.
    Doubled,
    /// Natural 21 on the first two cards.
    Blackjack,
}

/// A tagged record of what happened to a hand during a round, kept so that
/// settlement and statistics can match on it exactly.
#[derive(Debug, Clone, Copy, PartialEq, Eq, Structural)]
pub enum HandEvent {
    /// This hand was split and spawned a new hand.
    SplitCreatedNewHand,
    /// This hand was created by splitting the hand at the given index.
    SplitFromHand { from_hand_index: usize },
    /// The player handed this hand (and the rest of the round) to book play.
    ChoseBookMode,
}

/// Addition capped at 255, the accumulator domain of the valuation loop.
pub open spec fn spec_sat_add_u8(a: int, b: int) -> int {
    if a + b > 255 {
        255
    } else {
        a + b
    }
}

/// Sum of the primary values of `cards` (Ace = 11), accumulated left to
/// right with the cap at 255.
pub open spec fn spec_raw_sum(cards: Seq<Card>) -> int
    decreases cards.len(),
{
    if cards.len() == 0 {
        0
    } else {
        spec_sat_add_u8(spec_raw_sum(cards.drop_last()), spec_rank_value(cards.last().rank))
    }
}

/// How many cards of `cards` are Aces.
pub open spec fn spec_num_aces(cards: Seq<Card>) -> int
    decreases cards.len(),
{
    if cards.len() == 0 {
        0
    } else {
        spec_num_aces(cards.drop_last()) + if spec_is_ace(cards.last().rank) {
            1int
        } else {
            0int
        }
    }
}

/// The soft-ace reduction: while the total is over 21 and an ace still
/// counts as 11, count that ace as 1 instead (subtract 10).
pub open spec fn spec_reduce(total: int, aces: int) -> int
    decreases aces,
        when aces >= 0
{
    if total > 21 && aces > 0 {
        spec_reduce(total - 10, aces - 1)
    } else {
        total
    }
}

/// The blackjack value of a card sequence: the raw sum with as many aces
/// reduced from 11 to 1 as are needed to get to 21 or below.
pub open spec fn spec_hand_value(cards: Seq<Card>) -> int {
    spec_reduce(spec_raw_sum(cards), spec_num_aces(cards))
}

/// Sum of the primary values of the non-ace cards, capped at 255.
pub open spec fn spec_non_ace_sum(cards: Seq<Card>) -> int
    decreases cards.len(),
{
    if cards.len() == 0 {
        0
    } else if spec_is_ace(cards.last().rank) {
        spec_non_ace_sum(cards.drop_last())
    } else {
        spec_sat_add_u8(spec_non_ace_sum(cards.drop_last()), spec_rank_value(cards.last().rank))
    }
}

/// A hand is soft when at least one ace can still be counted as 11 without
/// busting: the other cards plus one point per further ace plus 11 stay
/// within 21.
pub open spec fn spec_is_soft(cards: Seq<Card>) -> bool {
    &&& spec_num_aces(cards) > 0
    &&& spec_non_ace_sum(cards) + (spec_num_aces(cards) - 1) + 11 <= 21
}

/// Exactly two cards of equal pairing value.
pub open spec fn spec_is_pair(cards: Seq<Card>) -> bool {
    cards.len() == 2 && spec_pair_value(cards[0].rank) == spec_pair_value(cards[1].rank)
}

/// An untouched two-card 21.
pub open spec fn spec_is_natural_blackjack(cards: Seq<Card>) -> bool {
    cards.len() == 2 && spec_hand_value(cards) == 21
}

pub proof fn lemma_num_aces_bounds(cards: Seq<Card>)
    ensures
        0 <= spec_num_aces(cards) <= cards.len(),
    decreases cards.len(),
{
    if cards.len() > 0 {
        lemma_num_aces_bounds(cards.drop_last());
    }
}

pub proof fn lemma_raw_sum_bounds(cards: Seq<Card>)
    ensures
        0 <= spec_raw_sum(cards) <= 255,
    decreases cards.len(),
{
    if cards.len() > 0 {
        lemma_raw_sum_bounds(cards.drop_last());
    }
}

proof fn lemma_reduce_shape(total: int, aces: int)
    requires
        aces >= 0,
    ensures
        spec_reduce(total, aces) <= total,
        spec_reduce(total, aces) >= total - 10 * aces,
        (total - spec_reduce(total, aces)) % 10 == 0,
        spec_reduce(total, aces) > 21 ==> spec_reduce(total, aces) == total - 10 * aces,
        total >= 0 ==> spec_reduce(total, aces) >= 0,
    decreases aces,
{
    if total > 21 && aces > 0 {
        lemma_reduce_shape(total - 10, aces - 1);
    }
}

/// The valuation law: the hand value is the raw (ace = 11) sum minus ten
/// points for each reduced ace (so the difference is a multiple of ten); it
/// never exceeds the raw sum, never drops below the raw sum with every ace
/// reduced, and a value still over 21 means every ace has been reduced.
pub proof fn lemma_hand_value_bounds(cards: Seq<Card>)
    ensures
        spec_hand_value(cards) <= spec_raw_sum(cards),
        spec_hand_value(cards) >= spec_raw_sum(cards) - 10 * spec_num_aces(cards),
        (spec_raw_sum(cards) - spec_hand_value(cards)) % 10 == 0,
        spec_hand_value(cards) > 21 ==> spec_hand_value(cards) == spec_raw_sum(cards) - 10
            * spec_num_aces(cards),
        0 <= spec_hand_value(cards) <= 255,
{
    lemma_num_aces_bounds(cards);
    lemma_raw_sum_bounds(cards);
    lemma_reduce_shape(spec_raw_sum(cards), spec_num_aces(cards));
}

/// Sum of the primary values with every ace counted 1 and no cap: the
/// minimum total the hand can stand for.
pub open spec fn spec_ace_low_sum(cards: Seq<Card>) -> int
    decreases cards.len(),
{
    if cards.len() == 0 {
        0
    } else {
        spec_ace_low_sum(cards.drop_last()) + (if spec_is_ace(cards.last().rank) {
            1int
        } else {
            spec_rank_value(cards.last().rank)
        })
    }
}

pub proof fn lemma_ace_low_sum_bounds(cards: Seq<Card>)
    ensures
        spec_num_aces(cards) <= spec_ace_low_sum(cards),
        0 <= spec_ace_low_sum(cards),
    decreases cards.len(),
{
    if cards.len() > 0 {
        lemma_ace_low_sum_bounds(cards.drop_last());
    }
}

proof fn lemma_raw_sum_unsaturated(cards: Seq<Card>)
    requires
        spec_ace_low_sum(cards) + 10 * spec_num_aces(cards) <= 255,
    ensures
        spec_raw_sum(cards) == spec_ace_low_sum(cards) + 10 * spec_num_aces(cards),
    decreases cards.len(),
{
    if cards.len() > 0 {
        lemma_ace_low_sum_bounds(cards.drop_last());
        lemma_num_aces_bounds(cards.drop_last());
        lemma_raw_sum_unsaturated(cards.drop_last());
    }
}

proof fn lemma_reduce_closed_form(m: int, a: int)
    requires
        0 <= a <= m,
    ensures
        spec_reduce(m + 10 * a, a) == (if a >= 1 && m + 10 <= 21 {
            m + 10
        } else {
            m
        }),
    decreases a,
{
    if a >= 1 && m + 10 * a > 21 {
        assert(m + 10 * a - 10 == m + 10 * (a - 1));
        lemma_reduce_closed_form(m, a - 1);
    }
}

/// The closed form of the soft/hard reduction: whenever the ace-as-eleven
/// sum stays within the accumulator's range, the value is the all-aces-low
/// minimum total, plus ten exactly when an ace can be promoted back to
/// eleven without busting — so at most one ace ever counts eleven.
pub proof fn lemma_hand_value_closed_form(cards: Seq<Card>)
    requires
        spec_ace_low_sum(cards) + 10 * spec_num_aces(cards) <= 255,
    ensures
        spec_hand_value(cards) == (if spec_num_aces(cards) >= 1 && spec_ace_low_sum(cards) + 10
            <= 21 {
            spec_ace_low_sum(cards) + 10
        } else {
            spec_ace_low_sum(cards)
        }),
{
    lemma_ace_low_sum_bounds(cards);
    lemma_num_aces_bounds(cards);
    lemma_raw_sum_unsaturated(cards);
    lemma_reduce_closed_form(spec_ace_low_sum(cards), spec_num_aces(cards));
}

/// Computes the soft/hard total of an arbitrary card sequence.
pub fn cards_value(cards: &Vec<Card>) -> (v: u8)
    ensures
        v == spec_hand_value(cards@),
{
    let ghost s = cards@;
    let mut total: u8 = 0;
    let mut num_aces: usize = 0;
    let mut i: usize = 0;
    while i < cards.len()
        invariant
            i <= cards.len(),
            cards@ == s,
            total == spec_raw_sum(s.take(i as int)),
            num_aces == spec_num_aces(s.take(i as int)),
        decreases cards.len() - i,
    {
        let (val, is_ace) = cards[i].rank.value();
        proof {
            assert(s.take(i + 1).drop_last() =~= s.take(i as int));
            assert(s.take(i + 1).last() == s[i as int]);
            lemma_num_aces_bounds(s.take(i as int));
            assert(s.take(i as int).len() == i);
        }
        total = total.saturating_add(val);
        if is_ace {
            num_aces += 1;
        }
        i += 1;
    }
    proof {
        assert(s.take(cards.len() as int) =~= s);
    }
    while total > 21 && num_aces > 0
        invariant
            spec_reduce(total as int, num_aces as int) == spec_hand_value(s),
        decreases total,
    {
        total -= 10;
        num_aces -= 1;
    }
    total
}

/// One seat's hand in one round: its cards in deal order, the bet riding on
/// it in cents, its status, whether it came from splitting aces, and the
/// events that shaped it.
#[derive(Debug, Clone)]
pub struct Hand {
    pub cards: Vec<Card>,
    pub bet: i64,
    pub status: HandStatus,
    pub is_split_ace: bool,
    pub actions_taken: Vec<HandEvent>,
}

impl Hand {
    /// A fresh, empty, active hand carrying `initial_bet` cents.
    pub fn new(initial_bet: i64) -> (h: Hand)
        ensures
            h.cards@ == Seq::<Card>::empty(),
            h.bet == initial_bet,
            h.status == HandStatus::Active,
            !h.is_split_ace,
            h.actions_taken@ == Seq::<HandEvent>::empty(),
    {
        Hand {
            cards: Vec::new(),
            bet: initial_bet,
            status: HandStatus::Active,
            is_split_ace: false,
            actions_taken: Vec::new(),
        }
    }

    pub fn add_card(&mut self, card: Card)
        ensures
            final(self).cards@ == old(self).cards@.push(card),
            final(self).bet == old(self).bet,
            final(self).status == old(self).status,
            final(self).is_split_ace == old(self).is_split_ace,
            final(self).actions_taken == old(self).actions_taken,
    {
        self.cards.push(card);
    }

    /// The soft/hard total of this hand, recomputed from the cards.
    pub fn value(&self) -> (v: u8)
        ensures
            v == spec_hand_value(self.cards@),
    {
        cards_value(&self.cards)
    }

    /// Exactly two cards of equal pairing value (J/Q/K/10 all pair as 10;
    /// an Ace pairs only with an Ace).
    pub fn is_pair(&self) -> (r: bool)
        ensures
            r == spec_is_pair(self.cards@),
    {
        if self.cards.len() == 2 {
            self.cards[0].rank.blackjack_value() == self.cards[1].rank.blackjack_value()
        } else {
            false
        }
    }

    /// Structurally splittable: a pair, fewer than four hands held, and not
    /// itself the child of an ace split. Financial checks are the caller's.
    pub fn is_splittable_pair(&self, num_current_hands_for_player: usize) -> (r: bool)
        ensures
            r == (spec_is_pair(self.cards@) && num_current_hands_for_player < 4
                && !self.is_split_ace),
    {
        self.is_pair() && num_current_hands_for_player < 4 && !self.is_split_ace
    }

    /// Structurally doublable: exactly two cards. Financial checks are the
    /// caller's.
    pub fn is_doublable(&self) -> (r: bool)
        ensures
            r == (self.cards@.len() == 2),
    {
        self.cards.len() == 2
    }

    pub fn is_natural_blackjack(&self) -> (r: bool)
        ensures
            r == spec_is_natural_blackjack(self.cards@),
    {
        self.cards.len() == 2 && self.value() == 21
    }
}

} // verus!
