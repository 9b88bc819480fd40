use blackjack::card_deck::{Card, Rank, Suit};
use blackjack::hand::{Hand, HandStatus};
use blackjack::strategy::{calculate_value_for_strategy, is_soft_for_strategy};

fn c(rank: Rank) -> Card {
    Card { rank, suit: Suit::Club }
}

fn hand_of(ranks: &[Rank]) -> Hand {
    let mut h = Hand::new(0);
    for &r in ranks {
        h.add_card(c(r));
    }
    h
}

#[test]
fn rank_primary_values() {
    assert_eq!(Rank::Two.value(), (2, false));
    assert_eq!(Rank::Nine.value(), (9, false));
    assert_eq!(Rank::Ten.value(), (10, false));
    assert_eq!(Rank::Jack.value(), (10, false));
    assert_eq!(Rank::Queen.value(), (10, false));
    assert_eq!(Rank::King.value(), (10, false));
    assert_eq!(Rank::Ace.value(), (11, true));
}

#[test]
fn rank_pairing_values() {
    assert_eq!(Rank::Ace.blackjack_value(), 11);
    assert_eq!(Rank::King.blackjack_value(), 10);
    assert_eq!(Rank::Ten.blackjack_value(), 10);
    assert_eq!(Rank::Five.blackjack_value(), 5);
}

#[test]
fn ace_king_is_a_natural_twenty_one() {
    let mut h = hand_of(&[Rank::Ace, Rank::King]);
    assert_eq!(h.value(), 21);
    assert!(h.is_natural_blackjack());
    h.add_card(c(Rank::Two));
    assert_eq!(h.value(), 13);
    assert!(!h.is_natural_blackjack());
}

#[test]
fn pairing_value_matches_ten_with_king_but_not_ace() {
    let ten_king = Hand {
        cards: vec![
            Card { rank: Rank::Ten, suit: Suit::Club },
            Card { rank: Rank::King, suit: Suit::Diamond },
        ],
        bet: 0,
        status: HandStatus::Active,
        is_split_ace: false,
        actions_taken: vec![],
    };
    assert!(ten_king.is_pair());
    let ace_king = hand_of(&[Rank::Ace, Rank::King]);
    assert!(!ace_king.is_pair());
}

#[test]
fn value_never_exceeds_raw_sum_and_reduces_by_tens() {
    // {A, A, 9}: raw 31, one ace reduced -> 21.
    assert_eq!(hand_of(&[Rank::Ace, Rank::Ace, Rank::Nine]).value(), 21);
    // {A, A}: raw 22, one ace reduced -> 12.
    assert_eq!(hand_of(&[Rank::Ace, Rank::Ace]).value(), 12);
    // {A, A, A}: raw 33, two aces reduced -> 13.
    assert_eq!(hand_of(&[Rank::Ace, Rank::Ace, Rank::Ace]).value(), 13);
    // A bust is reported at its raw total: {10, 9, 5} -> 24.
    assert_eq!(hand_of(&[Rank::Ten, Rank::Nine, Rank::Five]).value(), 24);
    // No ace, no reduction: value equals the raw sum.
    assert_eq!(hand_of(&[Rank::Seven, Rank::Nine]).value(), 16);
}

#[test]
fn value_is_minimum_total_plus_ten_when_an_ace_can_be_eleven() {
    // The closed form: all aces low, plus ten when that still fits.
    // {A, 3}: minimum 4, promoted -> 14.
    assert_eq!(hand_of(&[Rank::Ace, Rank::Three]).value(), 14);
    // {A, A, 3}: minimum 5, only one ace promoted -> 15.
    assert_eq!(hand_of(&[Rank::Ace, Rank::Ace, Rank::Three]).value(), 15);
    // {A, 5, 6}: minimum 12, promotion would bust -> 12.
    assert_eq!(hand_of(&[Rank::Ace, Rank::Five, Rank::Six]).value(), 12);
    // {K, Q, 3}: no ace, minimum stands -> 23.
    assert_eq!(hand_of(&[Rank::King, Rank::Queen, Rank::Three]).value(), 23);
}

#[test]
fn value_is_stable_under_reevaluation() {
    let h = hand_of(&[Rank::Ace, Rank::Seven, Rank::King]);
    let first = h.value();
    let second = h.value();
    assert_eq!(first, second);
    assert_eq!(first, 18);
}

#[test]
fn strategy_value_agrees_with_hand_value() {
    let h = hand_of(&[Rank::Ace, Rank::Six]);
    assert_eq!(calculate_value_for_strategy(&h.cards), h.value());
    assert_eq!(calculate_value_for_strategy(&h.cards), 17);
}

#[test]
fn softness_checks() {
    assert!(is_soft_for_strategy(&hand_of(&[Rank::Ace, Rank::Six]).cards));
    assert!(!is_soft_for_strategy(&hand_of(&[Rank::Ace, Rank::Ten, Rank::Six]).cards));
    assert!(!is_soft_for_strategy(&hand_of(&[Rank::Ten, Rank::Seven]).cards));
    assert!(is_soft_for_strategy(&hand_of(&[Rank::Ace, Rank::Ace]).cards));
}

#[test]
fn new_hand_defaults() {
    let h = Hand::new(2500);
    assert_eq!(h.bet, 2500);
    assert_eq!(h.status, HandStatus::Active);
    assert!(!h.is_split_ace);
    assert!(h.cards.is_empty());
    assert!(h.actions_taken.is_empty());
    assert_eq!(h.value(), 0);
    assert!(!h.is_doublable());
    assert!(!h.is_pair());
}

#[test]
fn splittable_and_doublable_rules() {
    let eights = hand_of(&[Rank::Eight, Rank::Eight]);
    assert!(eights.is_doublable());
    assert!(eights.is_splittable_pair(1));
    assert!(eights.is_splittable_pair(3));
    assert!(!eights.is_splittable_pair(4));
    let mut split_ace = hand_of(&[Rank::Ace, Rank::Ace]);
    split_ace.is_split_ace = true;
    assert!(!split_ace.is_splittable_pair(2));
    let three_cards = hand_of(&[Rank::Two, Rank::Two, Rank::Two]);
    assert!(!three_cards.is_doublable());
    assert!(!three_cards.is_splittable_pair(1));
}
