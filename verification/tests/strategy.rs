use blackjack::card_deck::{Card, Rank, Suit};
use blackjack::game_logic::choose_book_action;
use blackjack::strategy::{get_basic_strategy_action, PlayerAction};

fn cards_of(ranks: &[Rank]) -> Vec<Card> {
    let mut v = Vec::new();
    for &r in ranks {
        v.push(Card { rank: r, suit: Suit::Heart });
    }
    v
}

#[test]
fn hard_sixteen_hits_against_seven_stands_against_six() {
    let hard16 = cards_of(&[Rank::Ten, Rank::Six]);
    assert_eq!(get_basic_strategy_action(&hard16, 7, 1, true), PlayerAction::Hit);
    assert_eq!(get_basic_strategy_action(&hard16, 6, 1, true), PlayerAction::Stand);
}

#[test]
fn eleven_doubles_against_every_upcard() {
    let eleven = cards_of(&[Rank::Six, Rank::Five]);
    for up in 2..=11u8 {
        assert_eq!(get_basic_strategy_action(&eleven, up, 1, true), PlayerAction::Double);
    }
}

#[test]
fn aces_split_against_every_upcard() {
    let aces = cards_of(&[Rank::Ace, Rank::Ace]);
    for up in 2..=11u8 {
        assert_eq!(get_basic_strategy_action(&aces, up, 1, true), PlayerAction::Split);
    }
}

#[test]
fn eights_split_while_under_the_limit_but_not_at_it() {
    let eights = cards_of(&[Rank::Eight, Rank::Eight]);
    assert_eq!(get_basic_strategy_action(&eights, 10, 2, true), PlayerAction::Split);
    // At the four-hand limit the pair rows are skipped: hard 16 vs 10 hits.
    assert_eq!(get_basic_strategy_action(&eights, 10, 4, true), PlayerAction::Hit);
    // And vs 6 the hard-total row stands instead of splitting.
    assert_eq!(get_basic_strategy_action(&eights, 6, 4, true), PlayerAction::Stand);
}

#[test]
fn unavailable_split_is_requeried_and_falls_back() {
    let eights = cards_of(&[Rank::Eight, Rank::Eight]);
    // Split is called for but unavailable: re-query at the limit, hard 16
    // vs 10 -> Hit.
    assert_eq!(choose_book_action(&eights, 10, 2, true, false, true), PlayerAction::Hit);
    // Same situation vs 6: the re-query stands.
    assert_eq!(choose_book_action(&eights, 6, 2, true, false, true), PlayerAction::Stand);
    // Unsplittable aces re-query as soft 12 -> Hit.
    let aces = cards_of(&[Rank::Ace, Rank::Ace]);
    assert_eq!(choose_book_action(&aces, 5, 2, true, false, true), PlayerAction::Hit);
}

#[test]
fn unavailable_double_downgrades_to_hit() {
    let eleven = cards_of(&[Rank::Six, Rank::Five]);
    assert_eq!(choose_book_action(&eleven, 9, 1, false, false, true), PlayerAction::Hit);
    assert_eq!(choose_book_action(&eleven, 9, 1, true, false, true), PlayerAction::Double);
}

#[test]
fn soft_eighteen_rows() {
    let soft18 = cards_of(&[Rank::Ace, Rank::Seven]);
    assert_eq!(get_basic_strategy_action(&soft18, 2, 1, true), PlayerAction::Double);
    assert_eq!(get_basic_strategy_action(&soft18, 6, 1, true), PlayerAction::Double);
    assert_eq!(get_basic_strategy_action(&soft18, 7, 1, true), PlayerAction::Stand);
    assert_eq!(get_basic_strategy_action(&soft18, 8, 1, true), PlayerAction::Stand);
    assert_eq!(get_basic_strategy_action(&soft18, 9, 1, true), PlayerAction::Hit);
    // With three cards the double is unavailable inside the table itself.
    let soft18_three = cards_of(&[Rank::Ace, Rank::Three, Rank::Four]);
    assert_eq!(get_basic_strategy_action(&soft18_three, 3, 1, true), PlayerAction::Hit);
}

#[test]
fn pair_rows_follow_the_table() {
    let nines = cards_of(&[Rank::Nine, Rank::Nine]);
    assert_eq!(get_basic_strategy_action(&nines, 6, 1, true), PlayerAction::Split);
    assert_eq!(get_basic_strategy_action(&nines, 7, 1, true), PlayerAction::Stand);
    assert_eq!(get_basic_strategy_action(&nines, 10, 1, true), PlayerAction::Stand);
    let fours = cards_of(&[Rank::Four, Rank::Four]);
    assert_eq!(get_basic_strategy_action(&fours, 5, 1, true), PlayerAction::Split);
    assert_eq!(get_basic_strategy_action(&fours, 4, 1, true), PlayerAction::Hit);
    // Fives never split: they play as hard ten.
    let fives = cards_of(&[Rank::Five, Rank::Five]);
    assert_eq!(get_basic_strategy_action(&fives, 9, 1, true), PlayerAction::Double);
    assert_eq!(get_basic_strategy_action(&fives, 10, 1, true), PlayerAction::Hit);
    let sevens = cards_of(&[Rank::Seven, Rank::Seven]);
    assert_eq!(get_basic_strategy_action(&sevens, 7, 1, true), PlayerAction::Split);
    assert_eq!(get_basic_strategy_action(&sevens, 8, 1, true), PlayerAction::Hit);
}

#[test]
fn hard_rows_follow_the_table() {
    let twelve = cards_of(&[Rank::Ten, Rank::Two]);
    assert_eq!(get_basic_strategy_action(&twelve, 3, 1, true), PlayerAction::Hit);
    assert_eq!(get_basic_strategy_action(&twelve, 4, 1, true), PlayerAction::Stand);
    let nine = cards_of(&[Rank::Four, Rank::Five]);
    assert_eq!(get_basic_strategy_action(&nine, 2, 1, true), PlayerAction::Double);
    assert_eq!(get_basic_strategy_action(&nine, 7, 1, true), PlayerAction::Hit);
    let eight = cards_of(&[Rank::Three, Rank::Five]);
    assert_eq!(get_basic_strategy_action(&eight, 5, 1, true), PlayerAction::Hit);
    let seventeen = cards_of(&[Rank::Ten, Rank::Seven]);
    assert_eq!(get_basic_strategy_action(&seventeen, 10, 1, true), PlayerAction::Stand);
}
