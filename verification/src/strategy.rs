use crate::card_deck::{Card, Rank};
use crate::hand::{
    spec_hand_value, spec_is_pair, spec_is_soft, spec_non_ace_sum, spec_num_aces, cards_value,
    lemma_num_aces_bounds,
};
use vstd::prelude::*;

verus! {

/// What a seat can do with an active hand.
#[derive(Debug, Clone, Copy, PartialEq, Eq, Structural)]
pub enum PlayerAction {
    Hit,
    Stand,
    Double,
    Split,
}

/// Whether the basic-strategy table splits a pair of `r` against a dealer
/// upcard of value `up` (H17, six decks, double after split): always on
/// aces and eights; nines except against 7, 10 or ace; sevens, threes and
/// twos against 7 or less; sixes against 6 or less; fours only against 5 or
/// 6; never on fives or ten-value pairs.
pub open spec fn spec_pair_splits(r: Rank, up: int) -> bool {
    match r {
        Rank::Ace => true,
        Rank::Eight => true,
        Rank::Nine => !(up == 7 || up == 10 || up == 11),
        Rank::Seven => up <= 7,
        Rank::Six => up <= 6,
        Rank::Four => up == 5 || up == 6,
        Rank::Three => up <= 7,
        Rank::Two => up <= 7,
        _ => false,
    }
}

/// The soft-total rows of the table. `can_double` is true on a two-card
/// hand; an unavailable double falls back as the row says.
pub open spec fn spec_soft_action(v: int, up: int, can_double: bool) -> PlayerAction {
    if 19 <= v <= 21 {
        PlayerAction::Stand
    } else if v == 18 {
        if up <= 6 && can_double {
            PlayerAction::Double
        } else if up == 2 || up == 7 || up == 8 {
            PlayerAction::Stand
        } else {
            PlayerAction::Hit
        }
    } else if v == 17 {
        if 3 <= up <= 6 && can_double {
            PlayerAction::Double
        } else {
            PlayerAction::Hit
        }
    } else if v == 16 || v == 15 {
        if 4 <= up <= 6 && can_double {
            PlayerAction::Double
        } else {
            PlayerAction::Hit
        }
    } else if v == 13 || v == 14 {
        if 5 <= up <= 6 && can_double {
            PlayerAction::Double
        } else {
            PlayerAction::Hit
        }
    } else {
        PlayerAction::Hit
    }
}

/// The hard-total rows of the table.
pub open spec fn spec_hard_action(v: int, up: int, can_double: bool) -> PlayerAction {
    if 17 <= v <= 21 {
        PlayerAction::Stand
    } else if 13 <= v <= 16 {
        if up <= 6 {
            PlayerAction::Stand
        } else {
            PlayerAction::Hit
        }
    } else if v == 12 {
        if 4 <= up <= 6 {
            PlayerAction::Stand
        } else {
            PlayerAction::Hit
        }
    } else if v == 11 {
        if can_double {
            PlayerAction::Double
        } else {
            PlayerAction::Hit
        }
    } else if v == 10 {
        if up <= 9 && can_double {
            PlayerAction::Double
        } else {
            PlayerAction::Hit
        }
    } else if v == 9 {
        if 2 <= up <= 6 && can_double {
            PlayerAction::Double
        } else {
            PlayerAction::Hit
        }
    } else {
        PlayerAction::Hit
    }
}

/// The full basic-strategy decision for a hand against a dealer upcard
/// value (Ace = 11), with `hands` hands currently held by the seat (the
/// split limit is four). Pair rows are consulted first, then soft totals,
/// then hard totals; the first matching row wins.
pub open spec fn spec_basic_strategy(cards: Seq<Card>, up: int, hands: int) -> PlayerAction {
    if spec_is_pair(cards) && hands < 4 && spec_pair_splits(cards[0].rank, up) {
        PlayerAction::Split
    } else if spec_is_soft(cards) {
        spec_soft_action(spec_hand_value(cards), up, cards.len() == 2)
    } else {
        spec_hard_action(spec_hand_value(cards), up, cards.len() == 2)
    }
}

/// Soft/hard total of a hypothetical hand, as the strategy table sees it.
pub fn calculate_value_for_strategy(cards: &Vec<Card>) -> (v: u8)
    ensures
        v == spec_hand_value(cards@),
{
    cards_value(cards)
}

/// Whether the table reads the hand as soft (an ace still counted as 11).
pub fn is_soft_for_strategy(cards: &Vec<Card>) -> (r: bool)
    ensures
        r == spec_is_soft(cards@),
{
    let ghost s = cards@;
    let mut non_ace_value: u8 = 0;
    let mut num_aces: usize = 0;
    let mut i: usize = 0;
    while i < cards.len()
        invariant
            i <= cards.len(),
            cards@ == s,
            non_ace_value == spec_non_ace_sum(s.take(i as int)),
            num_aces == spec_num_aces(s.take(i as int)),
        decreases cards.len() - i,
    {
        proof {
            assert(s.take(i + 1).drop_last() =~= s.take(i as int));
            assert(s.take(i + 1).last() == s[i as int]);
            lemma_num_aces_bounds(s.take(i as int));
            assert(s.take(i as int).len() == i);
        }
        let (val, is_ace) = cards[i].rank.value();
        if is_ace {
            num_aces += 1;
        } else {
            non_ace_value = non_ace_value.saturating_add(val);
        }
        i += 1;
    }
    proof {
        assert(s.take(cards.len() as int) =~= s);
    }
    if num_aces == 0 {
        return false;
    }
    (non_ace_value as u128) + ((num_aces - 1) as u128) + 11 <= 21
}

/// The basic-strategy decision for `p_hand_cards` against
/// `dealer_upcard_value` when the seat holds
/// `num_total_player_hands_for_this_player` hands. May answer Double or
/// Split even when the caller cannot take them; the caller downgrades.
pub fn get_basic_strategy_action(
    p_hand_cards: &Vec<Card>,
    dealer_upcard_value: u8,
    num_total_player_hands_for_this_player: usize,
    _simulation_active: bool,
) -> (action: PlayerAction)
    ensures
        action == spec_basic_strategy(
            p_hand_cards@,
            dealer_upcard_value as int,
            num_total_player_hands_for_this_player as int,
        ),
{
    let up = dealer_upcard_value;
    let player_value = calculate_value_for_strategy(p_hand_cards);
    let is_pair = p_hand_cards.len() == 2 && p_hand_cards[0].rank.blackjack_value()
        == p_hand_cards[1].rank.blackjack_value();
    let is_soft = is_soft_for_strategy(p_hand_cards);
    let can_double_check = p_hand_cards.len() == 2;
    let can_split_check = is_pair && num_total_player_hands_for_this_player < 4;

    if can_split_check {
        let card_rank = p_hand_cards[0].rank;
        match card_rank {
            Rank::Ace | Rank::Eight => {
                return PlayerAction::Split;
            },
            Rank::Nine => {
                if !(up == 7 || up == 10 || up == 11) {
                    return PlayerAction::Split;
                }
            },
            Rank::Seven => {
                if up <= 7 {
                    return PlayerAction::Split;
                }
            },
            Rank::Six => {
                if up <= 6 {
                    return PlayerAction::Split;
                }
            },
            Rank::Four => {
                if up == 5 || up == 6 {
                    return PlayerAction::Split;
                }
            },
            Rank::Three | Rank::Two => {
                if up <= 7 {
                    return PlayerAction::Split;
                }
            },
            _ => {},
        }
    }

    if is_soft {
        if 19 <= player_value && player_value <= 21 {
            return PlayerAction::Stand;
        } else if player_value == 18 {
            if up <= 6 && can_double_check {
                return PlayerAction::Double;
            } else if up == 2 || up == 7 || up == 8 {
                return PlayerAction::Stand;
            } else {
                return PlayerAction::Hit;
            }
        } else if player_value == 17 {
            if 3 <= up && up <= 6 && can_double_check {
                return PlayerAction::Double;
            } else {
                return PlayerAction::Hit;
            }
        } else if player_value == 16 || player_value == 15 {
            if 4 <= up && up <= 6 && can_double_check {
                return PlayerAction::Double;
            } else {
                return PlayerAction::Hit;
            }
        } else if player_value == 13 || player_value == 14 {
            if 5 <= up && up <= 6 && can_double_check {
                return PlayerAction::Double;
            } else {
                return PlayerAction::Hit;
            }
        } else {
            return PlayerAction::Hit;
        }
    }

    if 17 <= player_value && player_value <= 21 {
        PlayerAction::Stand
    } else if 13 <= player_value && player_value <= 16 {
        if up <= 6 {
            PlayerAction::Stand
        } else {
            PlayerAction::Hit
        }
    } else if player_value == 12 {
        if 4 <= up && up <= 6 {
            PlayerAction::Stand
        } else {
            PlayerAction::Hit
        }
    } else if player_value == 11 {
        if can_double_check {
            PlayerAction::Double
        } else {
            PlayerAction::Hit
        }
    } else if player_value == 10 {
        if up <= 9 && can_double_check {
            PlayerAction::Double
        } else {
            PlayerAction::Hit
        }
    } else if player_value == 9 {
        if 2 <= up && up <= 6 && can_double_check {
            PlayerAction::Double
        } else {
            PlayerAction::Hit
        }
    } else {
        PlayerAction::Hit
    }
}

} // verus!
