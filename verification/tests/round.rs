use blackjack::card_deck::{Card, Deck, Rank, Suit};
use blackjack::config;
use blackjack::game_logic::{
    apply_hand_action, is_valid_bet, play_blackjack_round, play_dealer_hand, run_simulation,
    settle_user_hands, ActionOutcome,
};
use blackjack::hand::{Hand, HandStatus};
use blackjack::player::{Dealer, Player};
use blackjack::stats::SessionStats;
use blackjack::strategy::PlayerAction;
use blackjack::utils::get_delay_multiplied;

fn c(rank: Rank) -> Card {
    Card { rank, suit: Suit::Spade }
}

fn hand_of(ranks: &[Rank], bet: i64) -> Hand {
    let mut h = Hand::new(bet);
    for &r in ranks {
        h.add_card(c(r));
    }
    h
}

fn fresh_stats() -> SessionStats {
    SessionStats::new(1, "test".to_string(), 100_000)
}

#[test]
fn dealer_hits_hard_sixteen() {
    let mut deck = Deck::from_cards(vec![c(Rank::Five)]);
    let mut dealer = Dealer::new();
    dealer.hand = hand_of(&[Rank::Seven, Rank::Nine], 0);
    play_dealer_hand(&mut deck, &mut dealer);
    assert_eq!(dealer.hand.cards.len(), 3);
    assert_eq!(dealer.hand.value(), 21);
    assert_eq!(dealer.hand.status, HandStatus::Stood);
    assert_eq!(deck.len(), 0);
}

#[test]
fn dealer_stands_on_eighteen() {
    let mut deck = Deck::from_cards(vec![c(Rank::Five)]);
    let mut dealer = Dealer::new();
    dealer.hand = hand_of(&[Rank::Ten, Rank::Eight], 0);
    play_dealer_hand(&mut deck, &mut dealer);
    assert_eq!(dealer.hand.cards.len(), 2);
    assert_eq!(dealer.hand.status, HandStatus::Stood);
    assert_eq!(deck.len(), 1);
}

#[test]
fn dealer_hits_soft_seventeen() {
    // H17: an Ace-6 hand (soft 17) must take a card. The drawn ten
    // reduces the ace, leaving a hard 17 to stand on.
    let mut deck = Deck::from_cards(vec![c(Rank::Ten)]);
    let mut dealer = Dealer::new();
    dealer.hand = hand_of(&[Rank::Ace, Rank::Six], 0);
    play_dealer_hand(&mut deck, &mut dealer);
    assert_eq!(dealer.hand.cards.len(), 3);
    assert_eq!(dealer.hand.value(), 17);
    assert_eq!(dealer.hand.status, HandStatus::Stood);
    assert_eq!(deck.len(), 0);
}

#[test]
fn dealer_stands_on_hard_seventeen() {
    let mut deck = Deck::from_cards(vec![c(Rank::Five)]);
    let mut dealer = Dealer::new();
    dealer.hand = hand_of(&[Rank::Ten, Rank::Seven], 0);
    play_dealer_hand(&mut deck, &mut dealer);
    assert_eq!(dealer.hand.cards.len(), 2);
    assert_eq!(dealer.hand.status, HandStatus::Stood);
    assert_eq!(deck.len(), 1);
}

#[test]
fn dealer_busts_over_twenty_one() {
    let mut deck = Deck::from_cards(vec![c(Rank::King)]);
    let mut dealer = Dealer::new();
    dealer.hand = hand_of(&[Rank::Ten, Rank::Six], 0);
    play_dealer_hand(&mut deck, &mut dealer);
    assert_eq!(dealer.hand.value(), 26);
    assert_eq!(dealer.hand.status, HandStatus::Busted);
}

#[test]
fn splitting_eights_with_two_hands_makes_a_third() {
    let mut deck = Deck::from_cards(vec![c(Rank::Five), c(Rank::Six)]);
    let mut player = Player::new_user(0, "You".to_string(), 0);
    player.hands = vec![
        hand_of(&[Rank::Eight, Rank::Eight], 2500),
        hand_of(&[Rank::Ten, Rank::Nine], 2500),
    ];
    let mut stats = fresh_stats();
    let outcome = apply_hand_action(&mut deck, &mut player, 0, PlayerAction::Split, &mut stats);
    assert_eq!(outcome, ActionOutcome::Continues);
    assert_eq!(player.hands.len(), 3);
    assert_eq!(player.hands[0].cards, vec![c(Rank::Eight), c(Rank::Six)]);
    assert_eq!(player.hands[1].cards, vec![c(Rank::Eight), c(Rank::Five)]);
    assert_eq!(player.hands[1].bet, 2500);
    assert_eq!(player.hands[2].cards, vec![c(Rank::Ten), c(Rank::Nine)]);
    assert_eq!(stats.times_split_chosen, 1);
    assert_eq!(stats.hands_involved_in_split, 1);
}

#[test]
fn split_aces_stand_at_once() {
    let mut deck = Deck::from_cards(vec![c(Rank::Ten), c(Rank::Nine)]);
    let mut player = Player::new_user(0, "You".to_string(), 0);
    player.hands = vec![hand_of(&[Rank::Ace, Rank::Ace], 2500)];
    let mut stats = fresh_stats();
    let outcome = apply_hand_action(&mut deck, &mut player, 0, PlayerAction::Split, &mut stats);
    assert_eq!(outcome, ActionOutcome::TurnOver);
    assert_eq!(player.hands.len(), 2);
    assert_eq!(player.hands[0].status, HandStatus::Stood);
    assert_eq!(player.hands[1].status, HandStatus::Stood);
    assert!(player.hands[0].is_split_ace);
    assert!(player.hands[1].is_split_ace);
    assert_eq!(player.hands[0].cards, vec![c(Rank::Ace), c(Rank::Nine)]);
    assert_eq!(player.hands[1].cards, vec![c(Rank::Ace), c(Rank::Ten)]);
}

#[test]
fn doubling_doubles_the_bet_and_ends_the_turn() {
    let mut deck = Deck::from_cards(vec![c(Rank::Ten)]);
    let mut player = Player::new_user(0, "You".to_string(), 0);
    player.hands = vec![hand_of(&[Rank::Six, Rank::Five], 2500)];
    let mut stats = fresh_stats();
    let outcome = apply_hand_action(&mut deck, &mut player, 0, PlayerAction::Double, &mut stats);
    assert_eq!(outcome, ActionOutcome::TurnOver);
    assert_eq!(player.hands[0].bet, 5000);
    assert_eq!(player.hands[0].status, HandStatus::Doubled);
    assert_eq!(player.hands[0].value(), 21);
    assert_eq!(stats.times_doubled_chosen, 1);
}

#[test]
fn hitting_over_twenty_one_busts() {
    let mut deck = Deck::from_cards(vec![c(Rank::King)]);
    let mut player = Player::new_user(0, "You".to_string(), 0);
    player.hands = vec![hand_of(&[Rank::Ten, Rank::Six], 2500)];
    let mut stats = fresh_stats();
    let outcome = apply_hand_action(&mut deck, &mut player, 0, PlayerAction::Hit, &mut stats);
    assert_eq!(outcome, ActionOutcome::TurnOver);
    assert_eq!(player.hands[0].status, HandStatus::Busted);
    assert_eq!(player.hands[0].value(), 26);
}

#[test]
fn standing_player_beats_busting_dealer_one_to_one() {
    // Six-deck-sized shoe whose top five cards script the round: the
    // human draws 10 and 9, the dealer shows 6 over a hidden 10, the
    // human stands on 19, and the dealer's forced hit busts at 22.
    let mut cards = vec![c(Rank::Two); 307];
    cards.push(c(Rank::Six));
    cards.push(c(Rank::Ten));
    cards.push(c(Rank::Nine));
    cards.push(c(Rank::Six));
    cards.push(c(Rank::Ten));
    assert_eq!(cards.len(), 312);
    let mut deck = Deck::from_cards(cards);
    let mut players = vec![Player::new_user(0, "You".to_string(), 0)];
    let mut dealer = Dealer::new();
    let mut balance: i64 = 100_000;
    let mut stats = fresh_stats();
    let completed = play_blackjack_round(
        &mut deck,
        &mut players,
        &mut dealer,
        &mut balance,
        &mut stats,
        2500,
    );
    assert!(completed);
    assert_eq!(players[0].hands[0].status, HandStatus::Stood);
    assert_eq!(players[0].hands[0].value(), 19);
    assert_eq!(dealer.hand.status, HandStatus::Busted);
    assert_eq!(dealer.hand.value(), 22);
    assert_eq!(balance, 102_500);
    assert_eq!(stats.total_wins, 1);
    assert_eq!(stats.total_losses, 0);
    assert_eq!(stats.hands_played_session, 1);
}

#[test]
fn natural_blackjack_pays_six_to_five_immediately() {
    // Human draws Ace then King; dealer shows 5 over a hidden 9. The
    // natural is paid 6:5 on a 2500-cent bet: 3000 cents, with no
    // further cards drawn.
    let cards = vec![c(Rank::Nine), c(Rank::King), c(Rank::Five), c(Rank::Ace)];
    let mut deck = Deck::from_cards(cards);
    let mut players = vec![Player::new_user(0, "You".to_string(), 0)];
    let mut dealer = Dealer::new();
    let mut balance: i64 = 100_000;
    let mut stats = fresh_stats();
    let completed = play_blackjack_round(
        &mut deck,
        &mut players,
        &mut dealer,
        &mut balance,
        &mut stats,
        2500,
    );
    assert!(completed);
    assert_eq!(players[0].hands[0].status, HandStatus::Blackjack);
    assert_eq!(balance, 103_000);
    assert_eq!(stats.blackjacks_dealt_player, 1);
    assert_eq!(stats.total_wins, 1);
    assert_eq!(deck.len(), 0);
    assert_eq!(dealer.hand.cards.len(), 2);
}

#[test]
fn natural_against_dealer_natural_pushes() {
    let cards = vec![c(Rank::Ace), c(Rank::King), c(Rank::Ten), c(Rank::Ace)];
    let mut deck = Deck::from_cards(cards);
    let mut players = vec![Player::new_user(0, "You".to_string(), 0)];
    let mut dealer = Dealer::new();
    let mut balance: i64 = 100_000;
    let mut stats = fresh_stats();
    let completed = play_blackjack_round(
        &mut deck,
        &mut players,
        &mut dealer,
        &mut balance,
        &mut stats,
        2500,
    );
    assert!(completed);
    assert_eq!(balance, 100_000);
    assert_eq!(stats.total_pushes, 1);
    assert_eq!(stats.total_wins, 0);
}

#[test]
fn reshuffle_triggers_below_a_quarter() {
    let mut deck = Deck::from_cards(vec![c(Rank::Two); 312]);
    let mut dealt: usize = 0;
    while dealt < 234 {
        assert!(deck.deal().is_some());
        dealt += 1;
    }
    // 78 cards remain: exactly a quarter, not yet below it.
    assert_eq!(deck.len(), 78);
    assert!(!deck.needs_reshuffle(
        config::RESHUFFLE_THRESHOLD_NUM,
        config::RESHUFFLE_THRESHOLD_DEN
    ));
    assert!(deck.deal().is_some());
    assert_eq!(deck.len(), 77);
    assert!(deck.needs_reshuffle(
        config::RESHUFFLE_THRESHOLD_NUM,
        config::RESHUFFLE_THRESHOLD_DEN
    ));
}

#[test]
fn fresh_shoe_holds_every_card_per_deck() {
    let mut deck = Deck::new(2);
    assert_eq!(deck.initial_size, 104);
    assert_eq!(deck.len(), 104);
    let mut ace_count: u32 = 0;
    let mut heart_count: u32 = 0;
    let mut ace_of_spades: u32 = 0;
    while let Some(card) = deck.deal() {
        if card.rank == Rank::Ace {
            ace_count += 1;
        }
        if card.suit == Suit::Heart {
            heart_count += 1;
        }
        if card.rank == Rank::Ace && card.suit == Suit::Spade {
            ace_of_spades += 1;
        }
    }
    assert_eq!(ace_count, 8);
    assert_eq!(heart_count, 26);
    assert_eq!(ace_of_spades, 2);
    assert!(deck.is_empty());
}

#[test]
fn dealing_from_an_empty_shoe_fails() {
    let mut deck = Deck::from_cards(vec![]);
    assert!(deck.deal().is_none());
    assert!(deck.is_empty());
}

#[test]
fn round_aborts_when_balance_cannot_cover_the_bet() {
    let mut deck = Deck::from_cards(vec![c(Rank::Two); 10]);
    let mut players = vec![Player::new_user(0, "You".to_string(), 0)];
    let mut dealer = Dealer::new();
    let mut balance: i64 = 1000;
    let mut stats = fresh_stats();
    let completed = play_blackjack_round(
        &mut deck,
        &mut players,
        &mut dealer,
        &mut balance,
        &mut stats,
        2500,
    );
    assert!(!completed);
    assert_eq!(balance, 1000);
    assert_eq!(stats.hands_played_session, 0);
    assert_eq!(deck.len(), 10);
}

#[test]
fn round_aborts_when_the_shoe_cannot_cover_the_deal() {
    let mut deck = Deck::from_cards(vec![c(Rank::Two); 3]);
    let mut players = vec![Player::new_user(0, "You".to_string(), 0)];
    let mut dealer = Dealer::new();
    let mut balance: i64 = 100_000;
    let mut stats = fresh_stats();
    let completed = play_blackjack_round(
        &mut deck,
        &mut players,
        &mut dealer,
        &mut balance,
        &mut stats,
        2500,
    );
    assert!(!completed);
    assert_eq!(balance, 100_000);
    assert_eq!(stats.hands_played_session, 1);
}

#[test]
fn settlement_compares_values_one_to_one() {
    let mut dealer = Dealer::new();
    dealer.hand = hand_of(&[Rank::Ten, Rank::Eight], 0);
    dealer.hand.status = HandStatus::Stood;
    let mut user = Player::new_user(0, "You".to_string(), 0);
    let mut win = hand_of(&[Rank::Ten, Rank::Nine], 2500);
    win.status = HandStatus::Stood;
    let mut push = hand_of(&[Rank::Ten, Rank::Eight], 2500);
    push.status = HandStatus::Stood;
    let mut lose = hand_of(&[Rank::Ten, Rank::Seven], 2500);
    lose.status = HandStatus::Stood;
    let mut bust = hand_of(&[Rank::Ten, Rank::Seven, Rank::Nine], 2500);
    bust.status = HandStatus::Busted;
    user.hands = vec![win, push, lose, bust];
    let mut balance: i64 = 100_000;
    let mut stats = fresh_stats();
    settle_user_hands(&user, &dealer, &mut balance, &mut stats);
    assert_eq!(balance, 100_000 + 2500 - 2500 - 2500);
    assert_eq!(stats.total_wins, 1);
    assert_eq!(stats.total_pushes, 1);
    assert_eq!(stats.total_losses, 2);
    // Four hands mean a split scenario: all four count as split parts.
    assert_eq!(stats.num_resolved_split_hands, 4);
    assert_eq!(stats.total_hands_after_splits, 4);
}

#[test]
fn simulation_accounts_for_its_own_balances() {
    let (stats, history) = run_simulation(
        42,
        "Simulation".to_string(),
        30,
        6,
        3,
        100_000,
        2500,
        100,
    );
    assert!(history.len() >= 2);
    assert!(history.len() <= 31);
    assert_eq!(history[0], 100_000);
    assert_eq!(stats.initial_balance, 100_000);
    assert_eq!(stats.final_balance, *history.last().unwrap());
    assert_eq!(stats.net_profit_loss, stats.final_balance - stats.initial_balance);
    assert_eq!(stats.target_iterations, Some(30));
    assert_eq!(stats.run_id, 42);
    assert!(stats.hands_played_session as usize >= history.len() - 1);
    assert!(stats.highest_balance_session >= stats.lowest_balance_session);
}

#[test]
fn bet_validation_bounds() {
    assert!(is_valid_bet(100_000, 100, 2500));
    assert!(is_valid_bet(100_000, 100, 100));
    assert!(!is_valid_bet(100_000, 100, 99));
    assert!(!is_valid_bet(2000, 100, 2500));
    assert!(is_valid_bet(2500, 100, 2500));
}

#[test]
fn delay_multiplier_scales_simulation_waits() {
    assert_eq!(get_delay_multiplied(200, true), 4);
    assert_eq!(get_delay_multiplied(1000, true), 20);
    assert_eq!(get_delay_multiplied(500, false), 500);
}

#[test]
fn session_stats_metrics_and_extremes() {
    let mut stats = SessionStats::new(9, "Interactive".to_string(), 50_000);
    assert_eq!(stats.initial_balance, 50_000);
    assert_eq!(stats.initial_default_bet, config::DEFAULT_BET);
    stats.update_balance_extremes(60_000);
    stats.update_balance_extremes(45_000);
    assert_eq!(stats.highest_balance_session, 60_000);
    assert_eq!(stats.lowest_balance_session, 45_000);
    stats.final_balance = 61_000;
    stats.calculate_final_metrics();
    assert_eq!(stats.net_profit_loss, 11_000);
}
