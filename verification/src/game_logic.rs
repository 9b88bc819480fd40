use crate::card_deck::{spec_rank_value, Card, Deck, Rank};
use crate::config;
use crate::hand::{
    spec_hand_value, spec_is_natural_blackjack, spec_is_pair, spec_is_soft, Hand, HandEvent,
    HandStatus,
};
use crate::player::{Dealer, Player};
use crate::stats::SessionStats;
use crate::strategy::{
    get_basic_strategy_action, is_soft_for_strategy, spec_basic_strategy, PlayerAction,
};
use vstd::prelude::*;

verus! {

/// How one applied action left the current hand's turn.
#[derive(Debug, Clone, Copy, PartialEq, Eq, Structural)]
pub enum ActionOutcome {
    /// The hand is still active and may act again.
    Continues,
    /// The hand's turn is over (stood, doubled, busted, or auto-stood).
    TurnOver,
    /// The shoe ran out mid-action; the turn ends early and the round is
    /// fatally short of cards.
    ShoeEmpty,
}

/// The newer shoe contents are what the older were with zero or more cards
/// dealt off the tail.
pub open spec fn spec_deck_prefix(older: Seq<Card>, newer: Seq<Card>) -> bool {
    newer.len() <= older.len() && newer =~= older.take(newer.len() as int)
}

pub proof fn lemma_deck_prefix_trans(a: Seq<Card>, b: Seq<Card>, c: Seq<Card>)
    requires
        spec_deck_prefix(a, b),
        spec_deck_prefix(b, c),
    ensures
        spec_deck_prefix(a, c),
{
}

/// Everything about a hand except its cards and status.
pub open spec fn spec_hand_same_stakes(a: Hand, b: Hand) -> bool {
    a.bet == b.bet && a.is_split_ace == b.is_split_ace && a.actions_taken@ == b.actions_taken@
}

/// The player's seat identity: everything except the hands and the
/// per-round statistics flags.
pub open spec fn spec_same_seat(a: Player, b: Player) -> bool {
    a.id == b.id && a.name == b.name && a.is_user == b.is_user
}

/// The statistics fields a seat's play may touch are the four split/double
/// counters; everything else is identical.
pub open spec fn spec_stats_same_but_split_double(a: SessionStats, b: SessionStats) -> bool {
    &&& a.run_id == b.run_id
    &&& a.mode == b.mode
    &&& a.target_iterations == b.target_iterations
    &&& a.hands_played_session == b.hands_played_session
    &&& a.blackjacks_dealt_player == b.blackjacks_dealt_player
    &&& a.total_hands_after_splits == b.total_hands_after_splits
    &&& a.total_wins == b.total_wins
    &&& a.total_losses == b.total_losses
    &&& a.total_pushes == b.total_pushes
    &&& a.earnings_from_split_hands == b.earnings_from_split_hands
    &&& a.num_resolved_split_hands == b.num_resolved_split_hands
    &&& a.earnings_from_doubled_hands == b.earnings_from_doubled_hands
    &&& a.num_resolved_doubled_hands == b.num_resolved_doubled_hands
    &&& a.initial_default_bet == b.initial_default_bet
    &&& a.initial_balance == b.initial_balance
    &&& a.final_balance == b.final_balance
    &&& a.highest_balance_session == b.highest_balance_session
    &&& a.lowest_balance_session == b.lowest_balance_session
    &&& a.net_profit_loss == b.net_profit_loss
}

/// A hand may double when it still has exactly two cards; the human seat
/// must also be able to cover a second bet of the same size.
pub open spec fn spec_can_double(p: Player, idx: int, balance: int) -> bool {
    p.hands[idx].cards@.len() == 2 && (!p.is_user || balance >= p.hands[idx].bet)
}

/// A hand may split when it is a pair, the seat holds fewer than four
/// hands, it is not itself a split-ace hand, and (for the human seat) the
/// balance covers the duplicated bet.
pub open spec fn spec_can_split(p: Player, idx: int, balance: int) -> bool {
    &&& spec_is_pair(p.hands[idx].cards@)
    &&& p.hands@.len() < 4
    &&& !p.hands[idx].is_split_ace
    &&& (!p.is_user || balance >= p.hands[idx].bet)
}

pub fn can_double_hand(player: &Player, hand_idx: usize, your_balance: i64) -> (r: bool)
    requires
        hand_idx < player.hands@.len(),
    ensures
        r == spec_can_double(*player, hand_idx as int, your_balance as int),
{
    player.hands[hand_idx].is_doublable() && (!player.is_user || your_balance
        >= player.hands[hand_idx].bet)
}

pub fn can_split_hand(player: &Player, hand_idx: usize, your_balance: i64) -> (r: bool)
    requires
        hand_idx < player.hands@.len(),
    ensures
        r == spec_can_split(*player, hand_idx as int, your_balance as int),
{
    let num_hands = player.hands.len();
    player.hands[hand_idx].is_splittable_pair(num_hands) && (!player.is_user || your_balance
        >= player.hands[hand_idx].bet)
}

/// The book decision after availability downgrades: an unaffordable or
/// unavailable Double becomes Hit; an unavailable Split is re-queried as if
/// the split limit were reached, and Hit if the table still says Split.
pub open spec fn spec_book_choice(
    cards: Seq<Card>,
    up: int,
    hands: int,
    can_double: bool,
    can_split: bool,
) -> PlayerAction {
    let a = spec_basic_strategy(cards, up, hands);
    if a == PlayerAction::Double && !can_double {
        PlayerAction::Hit
    } else if a == PlayerAction::Split && !can_split {
        let b = spec_basic_strategy(cards, up, 10);
        if b == PlayerAction::Split {
            PlayerAction::Hit
        } else {
            b
        }
    } else {
        a
    }
}

/// Consults the basic-strategy table and downgrades actions the hand
/// cannot take, exactly as the round engine does for book play.
pub fn choose_book_action(
    cards: &Vec<Card>,
    dealer_upcard_value: u8,
    num_hands: usize,
    can_double: bool,
    can_split: bool,
    is_simulation: bool,
) -> (a: PlayerAction)
    ensures
        a == spec_book_choice(
            cards@,
            dealer_upcard_value as int,
            num_hands as int,
            can_double,
            can_split,
        ),
{
    let mut book_action = get_basic_strategy_action(
        cards,
        dealer_upcard_value,
        num_hands,
        is_simulation,
    );
    if book_action == PlayerAction::Double && !can_double {
        book_action = PlayerAction::Hit;
    } else if book_action == PlayerAction::Split && !can_split {
        book_action = get_basic_strategy_action(cards, dealer_upcard_value, 10, is_simulation);
        if book_action == PlayerAction::Split {
            book_action = PlayerAction::Hit;
        }
    }
    book_action
}

/// What `apply_hand_action` leaves of the seat's hands when the chosen
/// action is a hit that drew `c`: the card is appended and the hand busts
/// over 21, auto-stands on a split-ace 21, and otherwise stays active.
pub open spec fn spec_hit_effect(pre: Player, post: Player, idx: int, c: Card) -> bool {
    let h0 = pre.hands[idx];
    let h1 = post.hands[idx];
    let v = spec_hand_value(h0.cards@.push(c));
    &&& post.hands@.len() == pre.hands@.len()
    &&& forall|j: int| 0 <= j < pre.hands@.len() && j != idx ==> post.hands[j] == pre.hands[j]
    &&& h1.cards@ == h0.cards@.push(c)
    &&& spec_hand_same_stakes(h0, h1)
    &&& h1.status == (if v > 21 {
        HandStatus::Busted
    } else if v == 21 && h0.is_split_ace {
        HandStatus::Stood
    } else {
        HandStatus::Active
    })
}

/// What a double leaves of the hands when it drew `c`: the human seat's
/// bet is doubled, one card is appended, and the hand is Doubled, or
/// Busted over 21.
pub open spec fn spec_double_effect(pre: Player, post: Player, idx: int, c: Card) -> bool {
    let h0 = pre.hands[idx];
    let h1 = post.hands[idx];
    let v = spec_hand_value(h0.cards@.push(c));
    &&& post.hands@.len() == pre.hands@.len()
    &&& forall|j: int| 0 <= j < pre.hands@.len() && j != idx ==> post.hands[j] == pre.hands[j]
    &&& h1.cards@ == h0.cards@.push(c)
    &&& h1.bet == (if pre.is_user {
        2 * h0.bet
    } else {
        h0.bet as int
    })
    &&& h1.is_split_ace == h0.is_split_ace
    &&& h1.actions_taken@ == h0.actions_taken@
    &&& h1.status == (if v > 21 {
        HandStatus::Busted
    } else {
        HandStatus::Doubled
    })
}

/// What a completed split leaves of the hands: the original hand keeps its
/// first card and drew `c1`, the new hand inserted right after it holds
/// the moved second card and drew `c2`, both carry the split-ace flag when
/// aces were split (and are then already stood), and the human seat's bet
/// is duplicated onto the new hand.
pub open spec fn spec_split_effect(pre: Player, post: Player, idx: int, c1: Card, c2: Card) -> bool {
    let h0 = pre.hands[idx];
    let h1 = post.hands[idx];
    let hn = post.hands[idx + 1];
    let is_ace = h0.cards[0].rank == Rank::Ace;
    let rest_status = if is_ace {
        HandStatus::Stood
    } else {
        HandStatus::Active
    };
    &&& post.hands@.len() == pre.hands@.len() + 1
    &&& forall|j: int| 0 <= j < idx ==> post.hands[j] == pre.hands[j]
    &&& forall|j: int| idx + 1 < j < post.hands@.len() ==> post.hands[j] == pre.hands[j - 1]
    &&& h1.cards@ == seq![h0.cards[0], c1]
    &&& h1.bet == h0.bet
    &&& h1.is_split_ace == is_ace
    &&& h1.actions_taken@ == h0.actions_taken@.push(HandEvent::SplitCreatedNewHand)
    &&& h1.status == rest_status
    &&& hn.cards@ == seq![h0.cards[1], c2]
    &&& hn.bet == (if pre.is_user {
        h0.bet
    } else {
        0
    })
    &&& hn.is_split_ace == is_ace
    &&& hn.actions_taken@ == seq![HandEvent::SplitFromHand { from_hand_index: idx as usize }]
    &&& hn.status == rest_status
}

/// A u32 counter bumped by `k` events, capped at the counter's maximum
/// (the engine counts with saturating increments, so statistics can never
/// overflow however long a session runs).
pub open spec fn spec_sat_u32(x: int) -> int {
    if x > u32::MAX {
        u32::MAX as int
    } else {
        x
    }
}

/// How a double changes the split/double statistics: the human seat
/// counts the double (and the once-per-round involvement flag); an AI seat
/// changes nothing.
pub open spec fn spec_double_accounting(
    prep: Player,
    postp: Player,
    pres: SessionStats,
    posts: SessionStats,
) -> bool {
    &&& (prep.is_user ==> {
        &&& posts.times_doubled_chosen == spec_sat_u32(pres.times_doubled_chosen + 1)
        &&& postp.hand_involved_in_double_this_round
        &&& posts.hands_involved_in_double == (if prep.hand_involved_in_double_this_round {
            pres.hands_involved_in_double as int
        } else {
            spec_sat_u32(pres.hands_involved_in_double + 1)
        })
    })
    &&& (!prep.is_user ==> posts == pres && postp.hand_involved_in_double_this_round
        == prep.hand_involved_in_double_this_round)
    &&& posts.times_split_chosen == pres.times_split_chosen
    &&& posts.hands_involved_in_split == pres.hands_involved_in_split
    &&& postp.hand_involved_in_split_this_round == prep.hand_involved_in_split_this_round
}

/// How a completed split changes them, symmetrically.
pub open spec fn spec_split_accounting(
    prep: Player,
    postp: Player,
    pres: SessionStats,
    posts: SessionStats,
) -> bool {
    &&& (prep.is_user ==> {
        &&& posts.times_split_chosen == spec_sat_u32(pres.times_split_chosen + 1)
        &&& postp.hand_involved_in_split_this_round
        &&& posts.hands_involved_in_split == (if prep.hand_involved_in_split_this_round {
            pres.hands_involved_in_split as int
        } else {
            spec_sat_u32(pres.hands_involved_in_split + 1)
        })
    })
    &&& (!prep.is_user ==> posts == pres && postp.hand_involved_in_split_this_round
        == prep.hand_involved_in_split_this_round)
    &&& posts.times_doubled_chosen == pres.times_doubled_chosen
    &&& posts.hands_involved_in_double == pres.hands_involved_in_double
    &&& postp.hand_involved_in_double_this_round == prep.hand_involved_in_double_this_round
}

/// Applies one chosen action to the hand at `hand_idx` exactly as the
/// round engine resolves it; the caller has already established that the
/// action is available. Statistics counters for the human seat's splits
/// and doubles are maintained here, as they are taken at the moment of the
/// action.
pub fn apply_hand_action(
    deck: &mut Deck,
    player: &mut Player,
    hand_idx: usize,
    action: PlayerAction,
    stats: &mut SessionStats,
) -> (outcome: ActionOutcome)
    requires
        hand_idx < old(player).hands@.len(),
        old(player).hands[hand_idx as int].status == HandStatus::Active,
        0 <= old(player).hands[hand_idx as int].bet <= config::MONEY_CAP,
        action == PlayerAction::Double ==> old(player).hands[hand_idx as int].cards@.len() == 2,
        action == PlayerAction::Split ==> spec_is_pair(old(player).hands[hand_idx as int].cards@)
            && old(player).hands@.len() < 4,
        old(deck).wf(),
    ensures
        final(deck).wf(),
        final(deck).spec_initial_size() == old(deck).spec_initial_size(),
        spec_deck_prefix(old(deck)@, final(deck)@),
        spec_same_seat(*old(player), *final(player)),
        spec_stats_same_but_split_double(*old(stats), *final(stats)),
        // Stand: the hand stands, nothing else moves.
        action == PlayerAction::Stand ==> outcome == ActionOutcome::TurnOver && final(deck)@ == old(
            deck,
        )@ && *final(stats) == *old(stats) && final(player).hands@ == old(player).hands@.update(
            hand_idx as int,
            (Hand { status: HandStatus::Stood, ..old(player).hands[hand_idx as int] }),
        ) && final(player).hand_involved_in_split_this_round == old(
            player,
        ).hand_involved_in_split_this_round && final(player).hand_involved_in_double_this_round
            == old(player).hand_involved_in_double_this_round,
        // Hit on an empty shoe: nothing moves.
        action == PlayerAction::Hit && old(deck)@.len() == 0 ==> outcome == ActionOutcome::ShoeEmpty
            && *final(player) == *old(player) && *final(stats) == *old(stats) && final(deck)@ == old(
            deck,
        )@,
        // Hit: the top card is drawn and the hit effect holds.
        action == PlayerAction::Hit && old(deck)@.len() > 0 ==> final(deck)@ == old(
            deck,
        )@.drop_last() && spec_hit_effect(
            *old(player),
            *final(player),
            hand_idx as int,
            old(deck)@.last(),
        ) && *final(stats) == *old(stats) && final(player).hand_involved_in_split_this_round == old(
            player,
        ).hand_involved_in_split_this_round && final(player).hand_involved_in_double_this_round
            == old(player).hand_involved_in_double_this_round && outcome == (if spec_hand_value(
            old(player).hands[hand_idx as int].cards@.push(old(deck)@.last()),
        ) > 21 || (spec_hand_value(
            old(player).hands[hand_idx as int].cards@.push(old(deck)@.last()),
        ) == 21 && old(player).hands[hand_idx as int].is_split_ace) {
            ActionOutcome::TurnOver
        } else {
            ActionOutcome::Continues
        }),
        // Double always ends the turn; the bet is doubled for the human
        // seat and the double statistics are taken even if the shoe then
        // turns out to be empty.
        action == PlayerAction::Double ==> outcome == (if old(deck)@.len() == 0 {
            ActionOutcome::ShoeEmpty
        } else {
            ActionOutcome::TurnOver
        }) && spec_double_accounting(*old(player), *final(player), *old(stats), *final(stats)),
        action == PlayerAction::Double && old(deck)@.len() == 0 ==> final(deck)@ == old(deck)@
            && final(player).hands@ == old(player).hands@.update(
            hand_idx as int,
            (Hand {
                bet: if old(player).is_user {
                    (2 * old(player).hands[hand_idx as int].bet) as i64
                } else {
                    old(player).hands[hand_idx as int].bet
                },
                ..old(player).hands[hand_idx as int]
            }),
        ),
        action == PlayerAction::Double && old(deck)@.len() > 0 ==> final(deck)@ == old(
            deck,
        )@.drop_last() && spec_double_effect(
            *old(player),
            *final(player),
            hand_idx as int,
            old(deck)@.last(),
        ),
        // Split: the pair is parted; each part draws one replacement card.
        action == PlayerAction::Split && old(deck)@.len() >= 2 ==> final(deck)@ == old(
            deck,
        )@.drop_last().drop_last() && spec_split_effect(
            *old(player),
            *final(player),
            hand_idx as int,
            old(deck)@.last(),
            old(deck)@.drop_last().last(),
        ) && outcome == (if old(player).hands[hand_idx as int].cards[0].rank == Rank::Ace {
            ActionOutcome::TurnOver
        } else {
            ActionOutcome::Continues
        }) && spec_split_accounting(*old(player), *final(player), *old(stats), *final(stats)),
        // Split starved of cards: no new hand, no statistics; the original
        // hand is left as far as the split got (stood already when aces
        // were split and their replacement card had come), and the shoe is
        // drained.
        action == PlayerAction::Split && old(deck)@.len() < 2 ==> outcome
            == ActionOutcome::ShoeEmpty && *final(stats) == *old(stats) && final(player).hands@.len() == old(player).hands@.len() && final(player).hand_involved_in_split_this_round == old(player).hand_involved_in_split_this_round
            && final(player).hand_involved_in_double_this_round == old(
            player,
        ).hand_involved_in_double_this_round && (forall|j: int|
            0 <= j < old(player).hands@.len() && j != hand_idx ==> final(player).hands[j] == old(
                player,
            ).hands[j]) && final(player).hands[hand_idx as int].bet == old(
            player,
        ).hands[hand_idx as int].bet && final(player).hands[hand_idx as int].status == (if old(
            deck,
        )@.len() == 1 && old(player).hands[hand_idx as int].cards[0].rank == Rank::Ace {
            HandStatus::Stood
        } else {
            HandStatus::Active
        }) && final(player).hands[hand_idx as int].is_split_ace == (old(
            player,
        ).hands[hand_idx as int].cards[0].rank == Rank::Ace) && final(deck)@.len() == 0,
{
    match action {
        PlayerAction::Stand => {
            let h = &mut player.hands[hand_idx];
            h.status = HandStatus::Stood;
            ActionOutcome::TurnOver
        },
        PlayerAction::Hit => {
            match deck.deal() {
                Some(new_card) => {
                    let h = &mut player.hands[hand_idx];
                    h.add_card(new_card);
                    let v = h.value();
                    if v > 21 {
                        h.status = HandStatus::Busted;
                        ActionOutcome::TurnOver
                    } else if v == 21 && h.is_split_ace {
                        h.status = HandStatus::Stood;
                        ActionOutcome::TurnOver
                    } else {
                        ActionOutcome::Continues
                    }
                },
                None => ActionOutcome::ShoeEmpty,
            }
        },
        PlayerAction::Double => {
            let is_user = player.is_user;
            if is_user {
                stats.times_doubled_chosen = stats.times_doubled_chosen.saturating_add(1);
                if !player.hand_involved_in_double_this_round {
                    stats.hands_involved_in_double = stats.hands_involved_in_double.saturating_add(
                        1,
                    );
                    player.hand_involved_in_double_this_round = true;
                }
                let h = &mut player.hands[hand_idx];
                h.bet = h.bet * 2;
            }
            match deck.deal() {
                Some(new_card) => {
                    let h = &mut player.hands[hand_idx];
                    h.add_card(new_card);
                    h.status = HandStatus::Doubled;
                    if h.value() > 21 {
                        h.status = HandStatus::Busted;
                    }
                    ActionOutcome::TurnOver
                },
                None => ActionOutcome::ShoeEmpty,
            }
        },
        PlayerAction::Split => {
            let is_user = player.is_user;
            let original_bet_for_split: i64;
            let is_ace_split: bool;
            let card_to_move: Card;
            {
                let h = &mut player.hands[hand_idx];
                original_bet_for_split = if is_user {
                    h.bet
                } else {
                    0
                };
                is_ace_split = h.cards[0].rank == Rank::Ace;
                card_to_move = match h.cards.pop() {
                    Some(c) => c,
                    None => unreached(),
                };
                h.is_split_ace = is_ace_split;
                h.actions_taken.push(HandEvent::SplitCreatedNewHand);
                match deck.deal() {
                    Some(c1) => {
                        h.add_card(c1);
                    },
                    None => {
                        return ActionOutcome::ShoeEmpty;
                    },
                }
                if h.is_split_ace {
                    h.status = HandStatus::Stood;
                }
            }
            let mut new_hand = Hand::new(original_bet_for_split);
            new_hand.add_card(card_to_move);
            new_hand.is_split_ace = is_ace_split;
            new_hand.actions_taken.push(
                HandEvent::SplitFromHand { from_hand_index: hand_idx },
            );
            match deck.deal() {
                Some(c2) => {
                    new_hand.add_card(c2);
                },
                None => {
                    return ActionOutcome::ShoeEmpty;
                },
            }
            if new_hand.is_split_ace {
                new_hand.status = HandStatus::Stood;
            }
            let ghost nh = new_hand;
            let ghost hs_mid = player.hands@;
            player.hands.insert(hand_idx + 1, new_hand);
            proof {
                let idx = hand_idx as int;
                let pre = old(player).hands@;
                hs_mid.insert_ensures(idx + 1, nh);
                assert(player.hands@[idx].cards@ =~= seq![
                    pre[idx].cards@[0],
                    old(deck)@.last(),
                ]);
                assert(player.hands@[idx + 1].cards@ =~= seq![
                    pre[idx].cards@[1],
                    old(deck)@.drop_last().last(),
                ]);
                assert(player.hands@[idx + 1].actions_taken@ =~= seq![
                    HandEvent::SplitFromHand { from_hand_index: hand_idx },
                ]);
            }
            if is_user {
                stats.times_split_chosen = stats.times_split_chosen.saturating_add(1);
                if !player.hand_involved_in_split_this_round {
                    stats.hands_involved_in_split = stats.hands_involved_in_split.saturating_add(
                        1,
                    );
                    player.hand_involved_in_split_this_round = true;
                }
            }
            if is_ace_split {
                ActionOutcome::TurnOver
            } else {
                ActionOutcome::Continues
            }
        },
    }
}

/// Whether the basic-strategy table can only answer Double on a two-card
/// hand: the soft and hard rows consult the two-card test before choosing
/// Double, and the pair rows never choose it.
pub proof fn lemma_strategy_double_needs_two_cards(cards: Seq<Card>, up: int, hands: int)
    ensures
        spec_basic_strategy(cards, up, hands) == PlayerAction::Double ==> cards.len() == 2,
{
}

/// The downgraded book choice answers Split only when the caller allowed
/// a split, and Double only when it allowed a double; and a Stand or
/// Double answer always agrees with the table consulted past the pair
/// rows (a hand count of 10 skips them), whichever hand count and
/// availability it was asked with.
pub proof fn lemma_book_choice_available(
    cards: Seq<Card>,
    up: int,
    hands: int,
    can_double: bool,
    can_split: bool,
)
    ensures
        spec_book_choice(cards, up, hands, can_double, can_split) == PlayerAction::Split
            ==> can_split,
        spec_book_choice(cards, up, hands, can_double, can_split) == PlayerAction::Double
            ==> cards.len() == 2,
        spec_book_choice(cards, up, hands, can_double, can_split) == PlayerAction::Stand
            ==> spec_basic_strategy(cards, up, 10) == PlayerAction::Stand,
        spec_book_choice(cards, up, hands, can_double, can_split) == PlayerAction::Double
            ==> spec_basic_strategy(cards, up, 10) == PlayerAction::Double,
{
    lemma_strategy_double_needs_two_cards(cards, up, hands);
    lemma_strategy_double_needs_two_cards(cards, up, 10);
}

/// A hand that book play left Stood or Doubled got there only as the
/// table directed: Stood (a split-ace auto-stand aside) only where the
/// table consulted past the pair rows says Stand on its cards, and
/// Doubled only where it said Double on the two cards the hand then held.
pub open spec fn spec_book_outcome_justified(h: Hand, up: int) -> bool {
    &&& (h.status == HandStatus::Stood && !h.is_split_ace ==> spec_basic_strategy(
        h.cards@,
        up,
        10,
    ) == PlayerAction::Stand)
    &&& (h.status == HandStatus::Doubled ==> h.cards@.len() >= 1 && spec_basic_strategy(
        h.cards@.drop_last(),
        up,
        10,
    ) == PlayerAction::Double)
}

/// Plays out every hand of one seat by the book: hands are visited in
/// ascending index order, a split inserts its new hand right after the
/// current one (so it is visited later in the same pass), and the hand
/// count is re-read every iteration rather than cached. Returns false
/// when the shoe ran dry somewhere, which ends the affected turns early.
pub fn play_seat_book(
    deck: &mut Deck,
    player: &mut Player,
    dealer_upcard_value: u8,
    your_balance: i64,
    stats: &mut SessionStats,
    is_simulation: bool,
) -> (shoe_ok: bool)
    requires
        old(player).hands@.len() == 1,
        0 <= old(player).hands[0].bet <= config::MONEY_CAP,
        !old(player).is_user ==> old(player).hands[0].bet == 0,
        old(deck).wf(),
    ensures
        final(deck).wf(),
        final(deck).spec_initial_size() == old(deck).spec_initial_size(),
        spec_deck_prefix(old(deck)@, final(deck)@),
        spec_same_seat(*old(player), *final(player)),
        spec_stats_same_but_split_double(*old(stats), *final(stats)),
        1 <= final(player).hands@.len() <= 4,
        forall|j: int|
            0 <= j < final(player).hands@.len() ==> 0 <= #[trigger] final(player).hands[j].bet
                <= 2 * old(player).hands[0].bet,
        shoe_ok ==> forall|j: int|
            0 <= j < final(player).hands@.len() ==> #[trigger] final(player).hands[j].status
                != HandStatus::Active,
        !shoe_ok ==> final(deck)@.len() == 0,
        old(player).hands[0].status != HandStatus::Blackjack ==> forall|j: int|
            0 <= j < final(player).hands@.len() ==> #[trigger] final(player).hands[j].status
                != HandStatus::Blackjack,
        old(player).hands[0].status == HandStatus::Active ==> forall|j: int|
            0 <= j < final(player).hands@.len() ==> spec_book_outcome_justified(
                #[trigger] final(player).hands[j],
                dealer_upcard_value as int,
            ),
        // While the seat never split (it still holds one hand) and the
        // shoe held out, its opening cards are still in place; play only
        // appended to them.
        shoe_ok && final(player).hands@.len() == 1 ==> final(player).hands[0].cards@.len() >= old(
            player,
        ).hands[0].cards@.len() && final(player).hands[0].cards@.take(
            old(player).hands[0].cards@.len() as int,
        ) == old(player).hands[0].cards@,
        old(player).is_user ==> final(stats).times_split_chosen == spec_sat_u32(
            old(stats).times_split_chosen + final(player).hands@.len() - 1,
        ),
        old(player).is_user ==> final(player).hand_involved_in_split_this_round == (old(
            player,
        ).hand_involved_in_split_this_round || final(player).hands@.len() > 1),
        old(player).is_user ==> final(stats).hands_involved_in_split == (if old(
            player,
        ).hand_involved_in_split_this_round || final(player).hands@.len() == 1 {
            old(stats).hands_involved_in_split as int
        } else {
            spec_sat_u32(old(stats).hands_involved_in_split + 1)
        }),
        old(stats).times_doubled_chosen <= final(stats).times_doubled_chosen,
        old(stats).hands_involved_in_double <= final(stats).hands_involved_in_double,
        old(player).hand_involved_in_double_this_round ==> final(player).hand_involved_in_double_this_round,
        !old(player).is_user ==> *final(stats) == *old(stats) && final(player).hand_involved_in_split_this_round == old(player).hand_involved_in_split_this_round
            && final(player).hand_involved_in_double_this_round == old(
            player,
        ).hand_involved_in_double_this_round,
{
    let ghost base_bet = player.hands@[0].bet as int;
    let ghost entry_cards = player.hands@[0].cards@;
    let mut idx: usize = 0;
    let mut shoe_ok: bool = true;
    while idx < player.hands.len()
        invariant
            deck.wf(),
            deck.spec_initial_size() == old(deck).spec_initial_size(),
            spec_deck_prefix(old(deck)@, deck@),
            spec_same_seat(*old(player), *player),
            spec_stats_same_but_split_double(*old(stats), *stats),
            1 <= player.hands@.len() <= 4,
            idx <= 4,
            base_bet == old(player).hands[0].bet,
            0 <= base_bet <= config::MONEY_CAP,
            !player.is_user ==> base_bet == 0,
            forall|j: int|
                0 <= j < player.hands@.len() ==> 0 <= #[trigger] player.hands[j].bet <= 2
                    * base_bet,
            forall|j: int|
                idx <= j < player.hands@.len() && #[trigger] player.hands[j].status
                    == HandStatus::Active ==> player.hands[j].bet == base_bet,
            shoe_ok ==> forall|j: int|
                0 <= j < idx && j < player.hands@.len() ==> #[trigger] player.hands[j].status
                    != HandStatus::Active,
            !shoe_ok ==> deck@.len() == 0,
            old(player).hands[0].status != HandStatus::Blackjack ==> forall|j: int|
                0 <= j < player.hands@.len() ==> #[trigger] player.hands[j].status
                    != HandStatus::Blackjack,
            old(player).hands[0].status == HandStatus::Active ==> forall|j: int|
                0 <= j < player.hands@.len() ==> spec_book_outcome_justified(
                    #[trigger] player.hands[j],
                    dealer_upcard_value as int,
                ),
            entry_cards == old(player).hands[0].cards@,
            shoe_ok && player.hands@.len() == 1 ==> player.hands[0].cards@.len()
                >= entry_cards.len() && player.hands[0].cards@.take(entry_cards.len() as int)
                == entry_cards,
            player.is_user ==> stats.times_split_chosen == spec_sat_u32(
                old(stats).times_split_chosen + player.hands@.len() - 1,
            ),
            player.is_user ==> player.hand_involved_in_split_this_round == (old(
                player,
            ).hand_involved_in_split_this_round || player.hands@.len() > 1),
            player.is_user ==> stats.hands_involved_in_split == (if old(
                player,
            ).hand_involved_in_split_this_round || player.hands@.len() == 1 {
                old(stats).hands_involved_in_split as int
            } else {
                spec_sat_u32(old(stats).hands_involved_in_split + 1)
            }),
            old(stats).times_doubled_chosen <= stats.times_doubled_chosen,
            old(stats).hands_involved_in_double <= stats.hands_involved_in_double,
            old(player).hand_involved_in_double_this_round ==> player
                .hand_involved_in_double_this_round,
            !player.is_user ==> *stats == *old(stats) && player.hand_involved_in_split_this_round
                == old(player).hand_involved_in_split_this_round
                && player.hand_involved_in_double_this_round == old(
                player,
            ).hand_involved_in_double_this_round,
        decreases 4 - idx, deck@.len(),
    {
        if player.hands[idx].status != HandStatus::Active {
            idx = idx + 1;
            continue ;
        }
        let v = player.hands[idx].value();
        if v > 21 {
            let h = &mut player.hands[idx];
            h.status = HandStatus::Busted;
            idx = idx + 1;
            continue ;
        }
        let num_hands = player.hands.len();
        let can_double = can_double_hand(player, idx, your_balance);
        let can_split = can_split_hand(player, idx, your_balance);
        let action = choose_book_action(
            &player.hands[idx].cards,
            dealer_upcard_value,
            num_hands,
            can_double,
            can_split,
            is_simulation,
        );
        proof {
            lemma_book_choice_available(
                player.hands[idx as int].cards@,
                dealer_upcard_value as int,
                num_hands as int,
                can_double,
                can_split,
            );
        }
        let ghost pre_player = *player;
        let ghost pre_deck = deck@;
        let outcome = apply_hand_action(deck, player, idx, action, stats);
        proof {
            lemma_deck_prefix_trans(old(deck)@, pre_deck, deck@);
            if action == PlayerAction::Double && pre_deck.len() > 0 {
                assert(player.hands@[idx as int].cards@.drop_last() =~= pre_player.hands@[idx as int].cards@);
            }
            if outcome != ActionOutcome::ShoeEmpty && player.hands@.len() == 1
                && pre_player.hands@.len() == 1
                && pre_player.hands@[0].cards@.len() <= player.hands@[0].cards@.len()
                && entry_cards.len() <= pre_player.hands@[0].cards@.len() {
                assert(player.hands@[0].cards@.take(pre_player.hands@[0].cards@.len() as int)
                    =~= pre_player.hands@[0].cards@);
                assert(player.hands@[0].cards@.take(entry_cards.len() as int)
                    =~= pre_player.hands@[0].cards@.take(entry_cards.len() as int));
            }
        }
        match outcome {
            ActionOutcome::Continues => {},
            ActionOutcome::TurnOver => {
                idx = idx + 1;
            },
            ActionOutcome::ShoeEmpty => {
                shoe_ok = false;
                idx = idx + 1;
            },
        }
    }
    shoe_ok
}

/// A bet the table accepts: at least the minimum, and covered by the
/// player's balance.
pub open spec fn spec_bet_is_valid(balance: int, min_bet: int, bet: int) -> bool {
    min_bet <= bet && bet <= balance
}

pub fn is_valid_bet(balance: i64, min_bet: i64, bet: i64) -> (r: bool)
    ensures
        r == spec_bet_is_valid(balance as int, min_bet as int, bet as int),
{
    min_bet <= bet && bet <= balance
}

/// The shape every seat is brought to before dealing: one empty active
/// hand, carrying the round's bet on the human seat and nothing on an AI
/// seat.
pub open spec fn spec_reset_player(pre: Player, post: Player, user_bet: int) -> bool {
    &&& spec_same_seat(pre, post)
    &&& post.hands@.len() == 1
    &&& post.hands[0].cards@.len() == 0
    &&& post.hands[0].status == HandStatus::Active
    &&& !post.hands[0].is_split_ace
    &&& post.hands[0].actions_taken@.len() == 0
    &&& post.hands[0].bet == (if pre.is_user {
        user_bet
    } else {
        0int
    })
    &&& post.hand_involved_in_split_this_round == pre.hand_involved_in_split_this_round
    &&& post.hand_involved_in_double_this_round == pre.hand_involved_in_double_this_round
}

/// Brings every seat back to a single cleared hand (the human seat's hand
/// carrying `your_initial_bet`) and clears the dealer's hand.
pub fn reset_table_for_round(
    all_players_at_table: &mut Vec<Player>,
    dealer: &mut Dealer,
    your_initial_bet: i64,
)
    requires
        forall|i: int|
            0 <= i < old(all_players_at_table)@.len() ==> #[trigger] old(
                all_players_at_table,
            )@[i].hands@.len() >= 1,
    ensures
        final(all_players_at_table)@.len() == old(all_players_at_table)@.len(),
        forall|i: int|
            0 <= i < old(all_players_at_table)@.len() ==> spec_reset_player(
                old(all_players_at_table)@[i],
                #[trigger] final(all_players_at_table)@[i],
                your_initial_bet as int,
            ),
        final(dealer).hand.cards@.len() == 0,
        final(dealer).hand.status == HandStatus::Active,
        spec_hand_same_stakes(old(dealer).hand, final(dealer).hand),
{
    dealer.hand.cards.clear();
    dealer.hand.status = HandStatus::Active;
    let n = all_players_at_table.len();
    let mut i: usize = 0;
    while i < n
        invariant
            n == all_players_at_table@.len(),
            i <= n,
            forall|j: int|
                0 <= j < n ==> #[trigger] all_players_at_table@[j].hands@.len() >= 1,
            forall|j: int|
                i <= j < n ==> #[trigger] all_players_at_table@[j] == old(
                    all_players_at_table,
                )@[j],
            forall|j: int|
                0 <= j < i ==> spec_reset_player(
                    old(all_players_at_table)@[j],
                    #[trigger] all_players_at_table@[j],
                    your_initial_bet as int,
                ),
        decreases n - i,
    {
        let is_user = all_players_at_table[i].is_user;
        let p = &mut all_players_at_table[i];
        p.hands.truncate(1);
        let h = &mut p.hands[0];
        h.cards.clear();
        h.status = HandStatus::Active;
        h.is_split_ace = false;
        h.actions_taken.clear();
        if is_user {
            h.bet = your_initial_bet;
        } else {
            h.bet = 0;
        }
        i += 1;
    }
}

/// Deals the opening cards in table order: one card to every seat, the
/// dealer's upcard, a second card to every seat, then the dealer's hole
/// card. Fails (round-fatally) exactly when the shoe holds fewer than
/// `2 * (seats + 1)` cards, in which case it is left drained.
pub fn deal_initial_cards(
    deck: &mut Deck,
    all_players_at_table: &mut Vec<Player>,
    dealer: &mut Dealer,
) -> (ok: bool)
    requires
        old(deck).wf(),
        forall|i: int|
            #![trigger old(all_players_at_table)@[i]]
            0 <= i < old(all_players_at_table)@.len() ==> old(all_players_at_table)@[i].hands@.len()
                == 1 && old(all_players_at_table)@[i].hands[0].cards@.len() == 0,
        old(dealer).hand.cards@.len() == 0,
    ensures
        final(deck).wf(),
        final(deck).spec_initial_size() == old(deck).spec_initial_size(),
        spec_deck_prefix(old(deck)@, final(deck)@),
        final(all_players_at_table)@.len() == old(all_players_at_table)@.len(),
        ok <==> old(deck)@.len() >= 2 * (old(all_players_at_table)@.len() + 1),
        !ok ==> final(deck)@.len() == 0,
        forall|i: int|
            0 <= i < old(all_players_at_table)@.len() ==> spec_same_seat(
                old(all_players_at_table)@[i],
                #[trigger] final(all_players_at_table)@[i],
            ) && final(all_players_at_table)@[i].hands@.len() == 1 && spec_hand_same_stakes(
                old(all_players_at_table)@[i].hands[0],
                final(all_players_at_table)@[i].hands[0],
            ) && final(all_players_at_table)@[i].hands[0].status == old(
                all_players_at_table,
            )@[i].hands[0].status && final(all_players_at_table)@[i].hand_involved_in_split_this_round
                == old(all_players_at_table)@[i].hand_involved_in_split_this_round && final(all_players_at_table)@[i].hand_involved_in_double_this_round == old(
                all_players_at_table,
            )@[i].hand_involved_in_double_this_round,
        ok ==> ({
            let d = old(deck)@;
            let n = old(all_players_at_table)@.len() as int;
            let len = d.len() as int;
            &&& final(deck)@.len() == len - 2 * (n + 1)
            &&& forall|i: int|
                0 <= i < n ==> (#[trigger] final(all_players_at_table)@[i].hands[0].cards@)
                    =~= seq![d[len - 1 - i], d[len - n - 2 - i]]
            &&& final(dealer).hand.cards@ =~= seq![d[len - 1 - n], d[len - 2 * n - 2]]
        }),
        spec_hand_same_stakes(old(dealer).hand, final(dealer).hand),
        final(dealer).hand.status == old(dealer).hand.status,
{
    let ghost d = old(deck)@;
    let n = all_players_at_table.len();
    let ghost len = d.len() as int;
    let mut i: usize = 0;
    while i < n
        invariant
            n == all_players_at_table@.len(),
            n == old(all_players_at_table)@.len(),
            forall|j: int|
                #![trigger old(all_players_at_table)@[j]]
                0 <= j < n ==> old(all_players_at_table)@[j].hands@.len() == 1 && old(
                    all_players_at_table,
                )@[j].hands[0].cards@.len() == 0,
            i <= n,
            deck.wf(),
            deck.spec_initial_size() == old(deck).spec_initial_size(),
            d == old(deck)@,
            len == d.len() as int,
            i <= len,
            deck@ =~= d.take(len - i),
            *dealer == *old(dealer),
            forall|j: int|
                0 <= j < n ==> spec_same_seat(
                    old(all_players_at_table)@[j],
                    #[trigger] all_players_at_table@[j],
                ) && all_players_at_table@[j].hands@.len() == 1 && spec_hand_same_stakes(
                    old(all_players_at_table)@[j].hands[0],
                    all_players_at_table@[j].hands[0],
                ) && all_players_at_table@[j].hands[0].status == old(
                    all_players_at_table,
                )@[j].hands[0].status && all_players_at_table@[j].hand_involved_in_split_this_round
                    == old(all_players_at_table)@[j].hand_involved_in_split_this_round
                    && all_players_at_table@[j].hand_involved_in_double_this_round == old(
                    all_players_at_table,
                )@[j].hand_involved_in_double_this_round,
            forall|j: int|
                i <= j < n ==> (#[trigger] all_players_at_table@[j].hands[0].cards@) == old(
                    all_players_at_table,
                )@[j].hands[0].cards@,
            forall|j: int|
                0 <= j < i ==> (#[trigger] all_players_at_table@[j].hands[0].cards@) =~= seq![
                    d[len - 1 - j],
                ],
        decreases n - i,
    {
        match deck.deal() {
            Some(card) => {
                let p = &mut all_players_at_table[i];
                p.hands[0].add_card(card);
                proof {
                    assert(old(all_players_at_table)@[i as int].hands@.len() == 1);
                    assert(all_players_at_table@[i as int].hands[0].cards@ =~= seq![
                        d[len - 1 - i],
                    ]);
                }
            },
            None => {
                proof {
                    assert(len - i == 0);
                }
                return false;
            },
        }
        i += 1;
    }
    let dealer_up: Card;
    match deck.deal() {
        Some(card) => {
            dealer.hand.add_card(card);
            dealer_up = card;
        },
        None => {
            return false;
        },
    }
    let mut k: usize = 0;
    while k < n
        invariant
            n == all_players_at_table@.len(),
            n == old(all_players_at_table)@.len(),
            forall|j: int|
                #![trigger old(all_players_at_table)@[j]]
                0 <= j < n ==> old(all_players_at_table)@[j].hands@.len() == 1 && old(
                    all_players_at_table,
                )@[j].hands[0].cards@.len() == 0,
            k <= n,
            deck.wf(),
            deck.spec_initial_size() == old(deck).spec_initial_size(),
            d == old(deck)@,
            len == d.len() as int,
            n + 1 + k <= len,
            deck@ =~= d.take(len - (n + 1) - k),
            dealer.hand.cards@ =~= seq![d[len - 1 - n]],
            spec_hand_same_stakes(old(dealer).hand, dealer.hand),
            dealer.hand.status == old(dealer).hand.status,
            forall|j: int|
                0 <= j < n ==> spec_same_seat(
                    old(all_players_at_table)@[j],
                    #[trigger] all_players_at_table@[j],
                ) && all_players_at_table@[j].hands@.len() == 1 && spec_hand_same_stakes(
                    old(all_players_at_table)@[j].hands[0],
                    all_players_at_table@[j].hands[0],
                ) && all_players_at_table@[j].hands[0].status == old(
                    all_players_at_table,
                )@[j].hands[0].status && all_players_at_table@[j].hand_involved_in_split_this_round
                    == old(all_players_at_table)@[j].hand_involved_in_split_this_round
                    && all_players_at_table@[j].hand_involved_in_double_this_round == old(
                    all_players_at_table,
                )@[j].hand_involved_in_double_this_round,
            forall|j: int|
                k <= j < n ==> (#[trigger] all_players_at_table@[j].hands[0].cards@) =~= seq![
                    d[len - 1 - j],
                ],
            forall|j: int|
                0 <= j < k ==> (#[trigger] all_players_at_table@[j].hands[0].cards@) =~= seq![
                    d[len - 1 - j],
                    d[len - n - 2 - j],
                ],
        decreases n - k,
    {
        match deck.deal() {
            Some(card) => {
                let p = &mut all_players_at_table[k];
                p.hands[0].add_card(card);
                proof {
                    assert(all_players_at_table@[k as int].hands[0].cards@ =~= seq![
                        d[len - 1 - k],
                        d[len - n - 2 - k],
                    ]);
                }
            },
            None => {
                return false;
            },
        }
        k += 1;
    }
    match deck.deal() {
        Some(card) => {
            dealer.hand.add_card(card);
        },
        None => {
            return false;
        },
    }
    true
}

/// Resolves the human seat's natural blackjack before anyone else acts:
/// the hand is marked Blackjack, and either pushes against a dealer
/// natural or is paid immediately at the 6:5 multiplier.
pub fn resolve_user_natural(
    user: &mut Player,
    dealer: &Dealer,
    your_player_balance: &mut i64,
    session_stats: &mut SessionStats,
) -> (bj: bool)
    requires
        old(user).is_user,
        old(user).hands@.len() >= 1,
        0 <= old(user).hands[0].bet <= config::MONEY_CAP,
        -16 * config::MONEY_CAP <= *old(your_player_balance) <= 16 * config::MONEY_CAP,
    ensures
        bj == spec_is_natural_blackjack(old(user).hands[0].cards@),
        spec_same_seat(*old(user), *final(user)),
        !bj ==> *final(user) == *old(user) && *final(your_player_balance) == *old(
            your_player_balance,
        ) && *final(session_stats) == *old(session_stats),
        bj ==> final(user).hands@ == old(user).hands@.update(
            0,
            (Hand { status: HandStatus::Blackjack, ..old(user).hands[0] }),
        ) && final(user).hand_involved_in_split_this_round == old(
            user,
        ).hand_involved_in_split_this_round && final(user).hand_involved_in_double_this_round
            == old(user).hand_involved_in_double_this_round,
        bj ==> final(session_stats).blackjacks_dealt_player == spec_sat_u32(
            old(session_stats).blackjacks_dealt_player + 1,
        ),
        bj && spec_is_natural_blackjack(dealer.hand.cards@) ==> *final(your_player_balance)
            == *old(your_player_balance) && final(session_stats).total_pushes == spec_sat_u32(
            old(session_stats).total_pushes + 1,
        ) && final(session_stats).total_wins == old(session_stats).total_wins,
        bj && !spec_is_natural_blackjack(dealer.hand.cards@) ==> *final(your_player_balance)
            == *old(your_player_balance) + old(user).hands[0].bet
            * (config::BLACKJACK_PAYOUT_NUMERATOR as int) / (config::BLACKJACK_PAYOUT_DENOMINATOR as int) && final(session_stats).total_wins == spec_sat_u32(old(session_stats).total_wins + 1) && final(session_stats).total_pushes == old(session_stats).total_pushes,
        final(session_stats).run_id == old(session_stats).run_id,
        final(session_stats).mode == old(session_stats).mode,
        final(session_stats).target_iterations == old(session_stats).target_iterations,
        final(session_stats).hands_played_session == old(session_stats).hands_played_session,
        final(session_stats).times_split_chosen == old(session_stats).times_split_chosen,
        final(session_stats).hands_involved_in_split == old(session_stats).hands_involved_in_split,
        final(session_stats).total_hands_after_splits == old(
            session_stats,
        ).total_hands_after_splits,
        final(session_stats).times_doubled_chosen == old(session_stats).times_doubled_chosen,
        final(session_stats).hands_involved_in_double == old(
            session_stats,
        ).hands_involved_in_double,
        final(session_stats).total_losses == old(session_stats).total_losses,
        final(session_stats).earnings_from_split_hands == old(
            session_stats,
        ).earnings_from_split_hands,
        final(session_stats).num_resolved_split_hands == old(
            session_stats,
        ).num_resolved_split_hands,
        final(session_stats).earnings_from_doubled_hands == old(
            session_stats,
        ).earnings_from_doubled_hands,
        final(session_stats).num_resolved_doubled_hands == old(
            session_stats,
        ).num_resolved_doubled_hands,
        final(session_stats).initial_default_bet == old(session_stats).initial_default_bet,
        final(session_stats).initial_balance == old(session_stats).initial_balance,
        final(session_stats).final_balance == old(session_stats).final_balance,
        final(session_stats).highest_balance_session == old(
            session_stats,
        ).highest_balance_session,
        final(session_stats).lowest_balance_session == old(session_stats).lowest_balance_session,
        final(session_stats).net_profit_loss == old(session_stats).net_profit_loss,
{
    if user.hands[0].is_natural_blackjack() {
        let h = &mut user.hands[0];
        h.status = HandStatus::Blackjack;
        session_stats.blackjacks_dealt_player = session_stats.blackjacks_dealt_player
            .saturating_add(1);
        if dealer.hand.is_natural_blackjack() {
            session_stats.total_pushes = session_stats.total_pushes.saturating_add(1);
        } else {
            let winnings = user.hands[0].bet * config::BLACKJACK_PAYOUT_NUMERATOR
                / config::BLACKJACK_PAYOUT_DENOMINATOR;
            *your_player_balance = *your_player_balance + winnings;
            session_stats.total_wins = session_stats.total_wins.saturating_add(1);
        }
        true
    } else {
        false
    }
}

/// A hand the dealer must still play against: one that is neither busted
/// nor a settled natural blackjack.
pub open spec fn spec_hand_in_play(h: Hand) -> bool {
    h.status == HandStatus::Active || h.status == HandStatus::Stood || h.status
        == HandStatus::Doubled
}

pub open spec fn spec_player_needs_dealer(p: Player) -> bool {
    exists|j: int| 0 <= j < p.hands@.len() && spec_hand_in_play(#[trigger] p.hands[j])
}

pub open spec fn spec_needs_dealer(players: Seq<Player>) -> bool {
    exists|i: int| 0 <= i < players.len() && spec_player_needs_dealer(#[trigger] players[i])
}

/// The dealer plays only when some seat still holds a live hand to
/// compare against.
pub fn any_hand_needs_dealer_play(all_players_at_table: &Vec<Player>) -> (r: bool)
    ensures
        r == spec_needs_dealer(all_players_at_table@),
{
    let n = all_players_at_table.len();
    let mut i: usize = 0;
    while i < n
        invariant
            n == all_players_at_table@.len(),
            i <= n,
            forall|a: int|
                0 <= a < i ==> !spec_player_needs_dealer(#[trigger] all_players_at_table@[a]),
        decreases n - i,
    {
        let m = all_players_at_table[i].hands.len();
        let mut j: usize = 0;
        while j < m
            invariant
                n == all_players_at_table@.len(),
                i < n,
                m == all_players_at_table@[i as int].hands@.len(),
                j <= m,
                forall|a: int|
                    0 <= a < i ==> !spec_player_needs_dealer(#[trigger] all_players_at_table@[a]),
                forall|b: int|
                    0 <= b < j ==> !spec_hand_in_play(
                        #[trigger] all_players_at_table@[i as int].hands[b],
                    ),
            decreases m - j,
        {
            let st = all_players_at_table[i].hands[j].status;
            if st == HandStatus::Active || st == HandStatus::Stood || st == HandStatus::Doubled {
                return true;
            }
            j += 1;
        }
        i += 1;
    }
    false
}

/// Whether the H17 dealer rule requires another card: the dealer hits
/// any total under 17 and also a soft 17.
pub open spec fn spec_dealer_must_hit(cards: Seq<Card>) -> bool {
    spec_hand_value(cards) < 17 || (spec_hand_value(cards) == 17 && spec_is_soft(cards))
}

/// Dealer play under H17: hit any total under 17 and also a soft 17,
/// then bust over 21 or stand. The dealer can be left on a total the
/// rule still hits only by a drained shoe.
pub fn play_dealer_hand(deck: &mut Deck, dealer: &mut Dealer)
    requires
        old(deck).wf(),
    ensures
        final(deck).wf(),
        final(deck).spec_initial_size() == old(deck).spec_initial_size(),
        spec_deck_prefix(old(deck)@, final(deck)@),
        spec_hand_same_stakes(old(dealer).hand, final(dealer).hand),
        final(dealer).hand.status == (if spec_hand_value(final(dealer).hand.cards@) > 21 {
            HandStatus::Busted
        } else {
            HandStatus::Stood
        }),
        spec_dealer_must_hit(final(dealer).hand.cards@) ==> final(deck)@.len() == 0,
        // The dealer also stops: a hard 17 or any total of 18 or more
        // draws nothing, and every card drawn was taken while the hand
        // was still one the rule hits (under 17, or a soft 17).
        !spec_dealer_must_hit(old(dealer).hand.cards@) ==> final(dealer).hand.cards@ == old(
            dealer,
        ).hand.cards@,
        forall|k: int|
            old(dealer).hand.cards@.len() <= k < final(dealer).hand.cards@.len()
                ==> spec_dealer_must_hit(#[trigger] final(dealer).hand.cards@.take(k)),
        final(dealer).hand.cards@.len() >= old(dealer).hand.cards@.len(),
        final(dealer).hand.cards@.take(old(dealer).hand.cards@.len() as int) == old(
            dealer,
        ).hand.cards@,
        final(dealer).hand.cards@.len() - old(dealer).hand.cards@.len() == old(deck)@.len()
            - final(deck)@.len(),
{
    let ghost cards0 = dealer.hand.cards@;
    let mut dealer_value = dealer.hand.value();
    let mut dealer_soft = is_soft_for_strategy(&dealer.hand.cards);
    let mut ran_out = false;
    while (dealer_value < 17 || (dealer_value == 17 && dealer_soft)) && !ran_out
        invariant
            deck.wf(),
            deck.spec_initial_size() == old(deck).spec_initial_size(),
            spec_deck_prefix(old(deck)@, deck@),
            cards0 == old(dealer).hand.cards@,
            dealer_value == spec_hand_value(dealer.hand.cards@),
            dealer_soft == spec_is_soft(dealer.hand.cards@),
            spec_hand_same_stakes(old(dealer).hand, dealer.hand),
            dealer.hand.status == old(dealer).hand.status,
            ran_out ==> deck@.len() == 0,
            dealer.hand.cards@.len() >= cards0.len(),
            dealer.hand.cards@.take(cards0.len() as int) =~= cards0,
            dealer.hand.cards@.len() - cards0.len() == old(deck)@.len() - deck@.len(),
            !spec_dealer_must_hit(cards0) ==> dealer.hand.cards@ == cards0,
            forall|k: int|
                cards0.len() <= k < dealer.hand.cards@.len() ==> spec_dealer_must_hit(
                    #[trigger] dealer.hand.cards@.take(k),
                ),
        decreases deck@.len(), (if ran_out { 0int } else { 1int }),
    {
        let ghost pre_cards = dealer.hand.cards@;
        match deck.deal() {
            Some(new_card) => {
                dealer.hand.add_card(new_card);
                proof {
                    assert(dealer.hand.cards@.take(pre_cards.len() as int) =~= pre_cards);
                    assert forall|k: int|
                        cards0.len() <= k < pre_cards.len() implies spec_dealer_must_hit(
                        #[trigger] dealer.hand.cards@.take(k),
                    ) by {
                        assert(dealer.hand.cards@.take(k) =~= pre_cards.take(k));
                    }
                }
                dealer_value = dealer.hand.value();
                dealer_soft = is_soft_for_strategy(&dealer.hand.cards);
            },
            None => {
                ran_out = true;
            },
        }
    }
    if dealer_value > 21 {
        dealer.hand.status = HandStatus::Busted;
    } else {
        dealer.hand.status = HandStatus::Stood;
    }
}

/// The spec-level tally of settling the human seat's hands: the net
/// balance movement in cents, the win/loss/push counts, and the net and
/// count restricted to split-derived and to doubled hands.
pub ghost struct Settlement {
    pub net: int,
    pub wins: int,
    pub losses: int,
    pub pushes: int,
    pub split_net: int,
    pub split_parts: int,
    pub doubled_net: int,
    pub doubled_parts: int,
}

/// The net movement of one settled hand: a busted hand loses its bet; a
/// hand already settled as Blackjack moves nothing here; otherwise any
/// hand beats a busted dealer, and else win, lose or push by comparing
/// values 1:1.
pub open spec fn spec_hand_net(h: Hand, dealer_busted: bool, dealer_cmp: int) -> int {
    if h.status == HandStatus::Blackjack {
        0
    } else if h.status == HandStatus::Busted {
        -h.bet
    } else if dealer_busted {
        h.bet as int
    } else if spec_hand_value(h.cards@) > dealer_cmp {
        h.bet as int
    } else if spec_hand_value(h.cards@) < dealer_cmp {
        -h.bet
    } else {
        0
    }
}

pub open spec fn spec_hand_is_win(h: Hand, dealer_busted: bool, dealer_cmp: int) -> bool {
    h.status != HandStatus::Blackjack && h.status != HandStatus::Busted && (dealer_busted
        || spec_hand_value(h.cards@) > dealer_cmp)
}

pub open spec fn spec_hand_is_loss(h: Hand, dealer_busted: bool, dealer_cmp: int) -> bool {
    h.status == HandStatus::Busted || (h.status != HandStatus::Blackjack && !dealer_busted
        && spec_hand_value(h.cards@) < dealer_cmp)
}

pub open spec fn spec_hand_is_push(h: Hand, dealer_busted: bool, dealer_cmp: int) -> bool {
    h.status != HandStatus::Blackjack && h.status != HandStatus::Busted && !dealer_busted
        && spec_hand_value(h.cards@) == dealer_cmp
}

/// Whether this hand's history records a split, on either side of one.
pub open spec fn spec_has_split_event(h: Hand) -> bool {
    exists|k: int|
        0 <= k < h.actions_taken@.len() && ((#[trigger] h.actions_taken@[k])
            is SplitCreatedNewHand || h.actions_taken@[k] is SplitFromHand)
}

/// Settles `hands` in order against the dealer outcome. `many_hands` is
/// whether the seat ended the round with more than one hand, which marks
/// every hand of the round as part of a split scenario.
pub open spec fn spec_settle(
    hands: Seq<Hand>,
    dealer_busted: bool,
    dealer_cmp: int,
    many_hands: bool,
) -> Settlement
    decreases hands.len(),
{
    if hands.len() == 0 {
        Settlement {
            net: 0,
            wins: 0,
            losses: 0,
            pushes: 0,
            split_net: 0,
            split_parts: 0,
            doubled_net: 0,
            doubled_parts: 0,
        }
    } else {
        let rest = spec_settle(hands.drop_last(), dealer_busted, dealer_cmp, many_hands);
        let h = hands.last();
        let net = spec_hand_net(h, dealer_busted, dealer_cmp);
        let split_part = many_hands || spec_has_split_event(h);
        let doubled = h.status == HandStatus::Doubled;
        Settlement {
            net: rest.net + net,
            wins: rest.wins + (if spec_hand_is_win(h, dealer_busted, dealer_cmp) {
                1int
            } else {
                0int
            }),
            losses: rest.losses + (if spec_hand_is_loss(h, dealer_busted, dealer_cmp) {
                1int
            } else {
                0int
            }),
            pushes: rest.pushes + (if spec_hand_is_push(h, dealer_busted, dealer_cmp) {
                1int
            } else {
                0int
            }),
            split_net: rest.split_net + (if split_part {
                net
            } else {
                0int
            }),
            split_parts: rest.split_parts + (if split_part {
                1int
            } else {
                0int
            }),
            doubled_net: rest.doubled_net + (if doubled {
                net
            } else {
                0int
            }),
            doubled_parts: rest.doubled_parts + (if doubled {
                1int
            } else {
                0int
            }),
        }
    }
}

/// Bounds on a settlement: every count lies within the number of hands,
/// and every net within the number of hands times the largest bet.
pub proof fn lemma_settle_bounds(
    hands: Seq<Hand>,
    dealer_busted: bool,
    dealer_cmp: int,
    many_hands: bool,
    max_bet: int,
)
    requires
        max_bet >= 0,
        forall|j: int| 0 <= j < hands.len() ==> 0 <= (#[trigger] hands[j]).bet <= max_bet,
    ensures
        -(hands.len() * max_bet) <= spec_settle(hands, dealer_busted, dealer_cmp, many_hands).net
            <= hands.len() * max_bet,
        -(hands.len() * max_bet) <= spec_settle(
            hands,
            dealer_busted,
            dealer_cmp,
            many_hands,
        ).split_net <= hands.len() * max_bet,
        -(hands.len() * max_bet) <= spec_settle(
            hands,
            dealer_busted,
            dealer_cmp,
            many_hands,
        ).doubled_net <= hands.len() * max_bet,
        0 <= spec_settle(hands, dealer_busted, dealer_cmp, many_hands).wins <= hands.len(),
        0 <= spec_settle(hands, dealer_busted, dealer_cmp, many_hands).losses <= hands.len(),
        0 <= spec_settle(hands, dealer_busted, dealer_cmp, many_hands).pushes <= hands.len(),
        0 <= spec_settle(hands, dealer_busted, dealer_cmp, many_hands).split_parts <= hands.len(),
        0 <= spec_settle(hands, dealer_busted, dealer_cmp, many_hands).doubled_parts
            <= hands.len(),
    decreases hands.len(),
{
    if hands.len() > 0 {
        lemma_settle_bounds(hands.drop_last(), dealer_busted, dealer_cmp, many_hands, max_bet);
        assert((hands.len() - 1) * max_bet + max_bet == hands.len() * max_bet) by (nonlinear_arith);
    }
}

/// The statistics fields settlement may touch; everything else is
/// identical.
pub open spec fn spec_stats_same_but_settlement(a: SessionStats, b: SessionStats) -> bool {
    &&& a.run_id == b.run_id
    &&& a.mode == b.mode
    &&& a.target_iterations == b.target_iterations
    &&& a.hands_played_session == b.hands_played_session
    &&& a.blackjacks_dealt_player == b.blackjacks_dealt_player
    &&& a.times_split_chosen == b.times_split_chosen
    &&& a.hands_involved_in_split == b.hands_involved_in_split
    &&& a.times_doubled_chosen == b.times_doubled_chosen
    &&& a.hands_involved_in_double == b.hands_involved_in_double
    &&& a.initial_default_bet == b.initial_default_bet
    &&& a.initial_balance == b.initial_balance
    &&& a.final_balance == b.final_balance
    &&& a.highest_balance_session == b.highest_balance_session
    &&& a.lowest_balance_session == b.lowest_balance_session
    &&& a.net_profit_loss == b.net_profit_loss
}

fn hand_has_split_event(h: &Hand) -> (r: bool)
    ensures
        r == spec_has_split_event(*h),
{
    let m = h.actions_taken.len();
    let mut k: usize = 0;
    while k < m
        invariant
            m == h.actions_taken@.len(),
            k <= m,
            forall|t: int|
                0 <= t < k ==> !((#[trigger] h.actions_taken@[t]) is SplitCreatedNewHand
                    || h.actions_taken@[t] is SplitFromHand),
        decreases m - k,
    {
        match h.actions_taken[k] {
            HandEvent::SplitCreatedNewHand => {
                return true;
            },
            HandEvent::SplitFromHand { .. } => {
                return true;
            },
            _ => {},
        }
        k += 1;
    }
    false
}

/// Settles every one of the human seat's hands against the dealer's final
/// hand: the balance moves by the settlement's net, the win/loss/push
/// counters by its counts, and the split/double earnings by their nets.
pub fn settle_user_hands(
    user: &Player,
    dealer: &Dealer,
    your_player_balance: &mut i64,
    session_stats: &mut SessionStats,
)
    requires
        user.is_user,
        1 <= user.hands@.len() <= 4,
        forall|j: int|
            0 <= j < user.hands@.len() ==> 0 <= (#[trigger] user.hands[j]).bet <= 2
                * config::MONEY_CAP,
        -16 * config::MONEY_CAP <= *old(your_player_balance) <= 16 * config::MONEY_CAP,
        -16 * config::MONEY_CAP <= old(session_stats).earnings_from_split_hands <= 16
            * config::MONEY_CAP,
        -16 * config::MONEY_CAP <= old(session_stats).earnings_from_doubled_hands <= 16
            * config::MONEY_CAP,
    ensures
        ({
            let st = spec_settle(
                user.hands@,
                dealer.hand.status == HandStatus::Busted,
                spec_hand_value(dealer.hand.cards@),
                user.hands@.len() > 1,
            );
            &&& *final(your_player_balance) == *old(your_player_balance) + st.net
            &&& final(session_stats).total_wins == spec_sat_u32(
                old(session_stats).total_wins + st.wins,
            )
            &&& final(session_stats).total_losses == spec_sat_u32(
                old(session_stats).total_losses + st.losses,
            )
            &&& final(session_stats).total_pushes == spec_sat_u32(
                old(session_stats).total_pushes + st.pushes,
            )
            &&& final(session_stats).earnings_from_split_hands == old(
                session_stats,
            ).earnings_from_split_hands + st.split_net
            &&& final(session_stats).num_resolved_split_hands == spec_sat_u32(
                old(session_stats).num_resolved_split_hands + st.split_parts,
            )
            &&& final(session_stats).earnings_from_doubled_hands == old(
                session_stats,
            ).earnings_from_doubled_hands + st.doubled_net
            &&& final(session_stats).num_resolved_doubled_hands == spec_sat_u32(
                old(session_stats).num_resolved_doubled_hands + st.doubled_parts,
            )
            &&& final(session_stats).total_hands_after_splits == (if user.hands@.len() > 1 {
                spec_sat_u32(old(session_stats).total_hands_after_splits + user.hands@.len())
            } else {
                old(session_stats).total_hands_after_splits as int
            })
        }),
        spec_stats_same_but_settlement(*old(session_stats), *final(session_stats)),
{
    let ghost db_spec = dealer.hand.status == HandStatus::Busted;
    let ghost dcmp_spec = spec_hand_value(dealer.hand.cards@);
    let ghost hands_seq = user.hands@;
    let n = user.hands.len();
    let ghost many = n > 1;
    let dealer_busted = dealer.hand.status == HandStatus::Busted;
    let dealer_final_value_for_comparison: u8 = if dealer_busted {
        0
    } else {
        dealer.hand.value()
    };
    let mut i: usize = 0;
    while i < n
        invariant
            user.is_user,
            n == user.hands@.len(),
            1 <= n <= 4,
            hands_seq == user.hands@,
            many == (n > 1),
            db_spec == (dealer.hand.status == HandStatus::Busted),
            dcmp_spec == spec_hand_value(dealer.hand.cards@),
            dealer_busted == db_spec,
            !dealer_busted ==> dealer_final_value_for_comparison == dcmp_spec,
            dealer_busted ==> dealer_final_value_for_comparison == 0,
            forall|j: int|
                0 <= j < n ==> 0 <= (#[trigger] user.hands[j]).bet <= 2 * config::MONEY_CAP,
            -16 * config::MONEY_CAP <= *old(your_player_balance) <= 16 * config::MONEY_CAP,
            -16 * config::MONEY_CAP <= old(session_stats).earnings_from_split_hands <= 16
                * config::MONEY_CAP,
            -16 * config::MONEY_CAP <= old(session_stats).earnings_from_doubled_hands <= 16
                * config::MONEY_CAP,
            i <= n,
            ({
                let st = spec_settle(hands_seq.take(i as int), db_spec, dcmp_spec, many);
                &&& *your_player_balance == *old(your_player_balance) + st.net
                &&& session_stats.total_wins == spec_sat_u32(
                    old(session_stats).total_wins + st.wins,
                )
                &&& session_stats.total_losses == spec_sat_u32(
                    old(session_stats).total_losses + st.losses,
                )
                &&& session_stats.total_pushes == spec_sat_u32(
                    old(session_stats).total_pushes + st.pushes,
                )
                &&& session_stats.earnings_from_split_hands == old(
                    session_stats,
                ).earnings_from_split_hands + st.split_net
                &&& session_stats.num_resolved_split_hands == spec_sat_u32(
                    old(session_stats).num_resolved_split_hands + st.split_parts,
                )
                &&& session_stats.earnings_from_doubled_hands == old(
                    session_stats,
                ).earnings_from_doubled_hands + st.doubled_net
                &&& session_stats.num_resolved_doubled_hands == spec_sat_u32(
                    old(session_stats).num_resolved_doubled_hands + st.doubled_parts,
                )
            }),
            session_stats.total_hands_after_splits == old(session_stats).total_hands_after_splits,
            spec_stats_same_but_settlement(*old(session_stats), *session_stats),
        decreases n - i,
    {
        proof {
            assert(hands_seq.take(i + 1).drop_last() =~= hands_seq.take(i as int));
            assert(hands_seq.take(i + 1).last() == hands_seq[i as int]);
            lemma_settle_bounds(hands_seq.take(i as int), db_spec, dcmp_spec, many, 2
                * config::MONEY_CAP);
            lemma_settle_bounds(hands_seq.take(i + 1), db_spec, dcmp_spec, many, 2
                * config::MONEY_CAP);
            assert(forall|j: int|
                0 <= j < hands_seq.take(i + 1).len() ==> 0 <= (#[trigger] hands_seq.take(
                    i + 1,
                )[j]).bet <= 2 * config::MONEY_CAP);
        }
        let is_part_of_split_scenario = n > 1 || hand_has_split_event(&user.hands[i]);
        let is_doubled_this_hand = user.hands[i].status == HandStatus::Doubled;
        let player_final_val = user.hands[i].value();
        let mut net_change_for_this_hand: i64 = 0;
        match user.hands[i].status {
            HandStatus::Busted => {
                *your_player_balance = *your_player_balance - user.hands[i].bet;
                net_change_for_this_hand = -user.hands[i].bet;
                session_stats.total_losses = session_stats.total_losses.saturating_add(1);
            },
            HandStatus::Blackjack => {},
            _ => {
                if dealer_busted {
                    *your_player_balance = *your_player_balance + user.hands[i].bet;
                    net_change_for_this_hand = user.hands[i].bet;
                    session_stats.total_wins = session_stats.total_wins.saturating_add(1);
                } else if player_final_val > dealer_final_value_for_comparison {
                    *your_player_balance = *your_player_balance + user.hands[i].bet;
                    net_change_for_this_hand = user.hands[i].bet;
                    session_stats.total_wins = session_stats.total_wins.saturating_add(1);
                } else if player_final_val < dealer_final_value_for_comparison {
                    *your_player_balance = *your_player_balance - user.hands[i].bet;
                    net_change_for_this_hand = -user.hands[i].bet;
                    session_stats.total_losses = session_stats.total_losses.saturating_add(1);
                } else {
                    net_change_for_this_hand = 0;
                    session_stats.total_pushes = session_stats.total_pushes.saturating_add(1);
                }
            },
        }
        if is_part_of_split_scenario {
            session_stats.earnings_from_split_hands = session_stats.earnings_from_split_hands
                + net_change_for_this_hand;
            session_stats.num_resolved_split_hands = session_stats.num_resolved_split_hands
                .saturating_add(1);
        }
        if is_doubled_this_hand {
            session_stats.earnings_from_doubled_hands = session_stats.earnings_from_doubled_hands
                + net_change_for_this_hand;
            session_stats.num_resolved_doubled_hands = session_stats.num_resolved_doubled_hands
                .saturating_add(1);
        }
        i += 1;
    }
    proof {
        assert(hands_seq.take(n as int) =~= hands_seq);
    }
    if n > 1 {
        session_stats.total_hands_after_splits = session_stats.total_hands_after_splits
            .saturating_add(n as u32);
    }
}

/// One complete book-played round: reset and bet, deal, resolve the human
/// natural, play every seat by basic strategy, play the dealer if any
/// hand still needs comparing, and settle the human seat. Returns false
/// without playing when the balance cannot cover the bet, or when the
/// shoe cannot cover the opening deal (both round-fatal, not
/// session-fatal); mid-round shoe depletion ends the affected turns early
/// but the round still settles, as at a live table.
pub fn play_blackjack_round(
    deck: &mut Deck,
    all_players_at_table: &mut Vec<Player>,
    dealer: &mut Dealer,
    your_player_balance: &mut i64,
    session_stats: &mut SessionStats,
    default_bet: i64,
) -> (completed: bool)
    requires
        old(all_players_at_table)@.len() >= 1,
        old(all_players_at_table)@[0].is_user,
        forall|i: int|
            1 <= i < old(all_players_at_table)@.len() ==> !(#[trigger] old(
                all_players_at_table,
            )@[i]).is_user,
        forall|i: int|
            0 <= i < old(all_players_at_table)@.len() ==> (#[trigger] old(
                all_players_at_table,
            )@[i]).hands@.len() >= 1,
        old(deck).wf(),
        1 <= default_bet <= config::MONEY_CAP,
        -config::MONEY_CAP <= *old(your_player_balance) <= config::MONEY_CAP,
        -config::MONEY_CAP <= old(session_stats).earnings_from_split_hands <= config::MONEY_CAP,
        -config::MONEY_CAP <= old(session_stats).earnings_from_doubled_hands <= config::MONEY_CAP,
    ensures
        final(deck).wf(),
        final(deck).spec_initial_size() == old(deck).spec_initial_size(),
        spec_deck_prefix(old(deck)@, final(deck)@),
        final(all_players_at_table)@.len() == old(all_players_at_table)@.len(),
        forall|i: int|
            0 <= i < old(all_players_at_table)@.len() ==> spec_same_seat(
                old(all_players_at_table)@[i],
                #[trigger] final(all_players_at_table)@[i],
            ),
        completed == (*old(your_player_balance) >= default_bet && old(deck)@.len() >= 2 * (old(
            all_players_at_table,
        )@.len() + 1)),
        *old(your_player_balance) < default_bet ==> *final(your_player_balance) == *old(
            your_player_balance,
        ) && *final(session_stats) == *old(session_stats) && final(deck)@ == old(deck)@,
        !completed ==> *final(your_player_balance) == *old(your_player_balance) && final(session_stats).earnings_from_split_hands == old(session_stats).earnings_from_split_hands && final(session_stats).earnings_from_doubled_hands == old(session_stats).earnings_from_doubled_hands,
        *old(your_player_balance) >= default_bet ==> final(session_stats).hands_played_session
            == spec_sat_u32(old(session_stats).hands_played_session + 1),
        *old(your_player_balance) - 8 * default_bet <= *final(your_player_balance) <= *old(
            your_player_balance,
        ) + 8 * default_bet,
        old(session_stats).earnings_from_split_hands - 8 * default_bet <= final(session_stats).earnings_from_split_hands <= old(session_stats).earnings_from_split_hands + 8
            * default_bet,
        old(session_stats).earnings_from_doubled_hands - 8 * default_bet <= final(session_stats).earnings_from_doubled_hands <= old(session_stats).earnings_from_doubled_hands + 8
            * default_bet,
        final(session_stats).run_id == old(session_stats).run_id,
        final(session_stats).mode == old(session_stats).mode,
        final(session_stats).target_iterations == old(session_stats).target_iterations,
        final(session_stats).initial_default_bet == old(session_stats).initial_default_bet,
        final(session_stats).initial_balance == old(session_stats).initial_balance,
        final(session_stats).final_balance == old(session_stats).final_balance,
        final(session_stats).highest_balance_session == old(session_stats).highest_balance_session,
        final(session_stats).lowest_balance_session == old(session_stats).lowest_balance_session,
        final(session_stats).net_profit_loss == old(session_stats).net_profit_loss,
        forall|i: int|
            0 <= i < final(all_players_at_table)@.len() ==> 1 <= (#[trigger] final(all_players_at_table)@[i]).hands@.len(),
        completed ==> 1 <= final(all_players_at_table)@[0].hands@.len() <= 4,
        // Without a human natural, the balance moves by exactly the
        // settlement of the human seat's final hands against the dealer's
        // final hand.
        completed && final(all_players_at_table)@[0].hands[0].status != HandStatus::Blackjack
            ==> *final(your_player_balance) == *old(your_player_balance) + spec_settle(
            final(all_players_at_table)@[0].hands@,
            final(dealer).hand.status == HandStatus::Busted,
            spec_hand_value(final(dealer).hand.cards@),
            final(all_players_at_table)@[0].hands@.len() > 1,
        ).net,
        // A human natural is paid 6:5 at once, or pushes against a dealer
        // natural (the dealer's first two cards), and settles nothing
        // further.
        completed && final(all_players_at_table)@[0].hands[0].status == HandStatus::Blackjack
            ==> *final(your_player_balance) == *old(your_player_balance) + (
        if spec_is_natural_blackjack(final(dealer).hand.cards@.take(2)) {
            0int
        } else {
            default_bet * (config::BLACKJACK_PAYOUT_NUMERATOR as int) / (
            config::BLACKJACK_PAYOUT_DENOMINATOR as int)
        }),
        // While cards remain, every human hand has been played to rest.
        completed && final(deck)@.len() > 0 ==> forall|j: int|
            0 <= j < final(all_players_at_table)@[0].hands@.len() ==> (#[trigger] final(all_players_at_table)@[0].hands[j]).status != HandStatus::Active,
        // Completing a round consumes at least the opening deal from the
        // shoe.
        completed ==> final(deck)@.len() + 2 * (old(all_players_at_table)@.len() + 1) <= old(
            deck,
        )@.len(),
        // The dealer's first two cards are the dealt upcard and hole
        // card, at their stated shoe positions.
        completed ==> ({
            let d = old(deck)@;
            let dlen = d.len() as int;
            let seats = old(all_players_at_table)@.len() as int;
            &&& final(dealer).hand.cards@.len() >= 2
            &&& final(dealer).hand.cards@[0] == d[dlen - 1 - seats]
            &&& final(dealer).hand.cards@[1] == d[dlen - 2 * seats - 2]
        }),
        // While the human seat never split (one hand) and cards remain,
        // it still opens with its two dealt cards from the stated shoe
        // positions.
        completed && final(deck)@.len() > 0 && final(all_players_at_table)@[0].hands@.len() == 1
            ==> ({
            let d = old(deck)@;
            let dlen = d.len() as int;
            let seats = old(all_players_at_table)@.len() as int;
            &&& final(all_players_at_table)@[0].hands[0].cards@.len() >= 2
            &&& final(all_players_at_table)@[0].hands[0].cards@[0] == d[dlen - 1]
            &&& final(all_players_at_table)@[0].hands[0].cards@[1] == d[dlen - seats - 2]
        }),
        // The human seat ends on Blackjack exactly when its two dealt
        // cards were a natural.
        completed ==> ({
            let d = old(deck)@;
            let dlen = d.len() as int;
            let seats = old(all_players_at_table)@.len() as int;
            final(all_players_at_table)@[0].hands[0].status == HandStatus::Blackjack
                <==> spec_is_natural_blackjack(seq![d[dlen - 1], d[dlen - seats - 2]])
        }),
        // Once the bet is placed, every seat holds between one and four
        // hands for the rest of the round.
        *old(your_player_balance) >= default_bet ==> forall|i: int|
            0 <= i < final(all_players_at_table)@.len() ==> 1 <= (#[trigger] final(all_players_at_table)@[i]).hands@.len() <= 4,
        // Every seat was played by the book: each final hand's resting
        // status is one the strategy table directed against the dealer's
        // upcard.
        completed ==> forall|i: int, j: int|
            0 <= i < final(all_players_at_table)@.len() && 0 <= j < final(all_players_at_table)@[i].hands@.len() ==> spec_book_outcome_justified(
                #[trigger] final(all_players_at_table)@[i].hands[j],
                spec_rank_value(final(dealer).hand.cards@[0].rank),
            ),
        // The dealer followed the H17 rule whenever a live hand needed a
        // comparison, and otherwise never played.
        completed && spec_needs_dealer(final(all_players_at_table)@) ==> final(dealer).hand.status
            == (if spec_hand_value(final(dealer).hand.cards@) > 21 {
            HandStatus::Busted
        } else {
            HandStatus::Stood
        }) && (spec_dealer_must_hit(final(dealer).hand.cards@) ==> final(deck)@.len() == 0) && (
        forall|k: int|
            2 <= k < final(dealer).hand.cards@.len() ==> spec_dealer_must_hit(
                #[trigger] final(dealer).hand.cards@.take(k),
            )),
        completed && !spec_needs_dealer(final(all_players_at_table)@) ==> final(dealer).hand.cards@.len() == 2 && final(dealer).hand.status == HandStatus::Active,
        // The round's win, loss, push and blackjack counters move by
        // exactly the natural resolution plus the settlement counts.
        completed ==> ({
            let st = spec_settle(
                final(all_players_at_table)@[0].hands@,
                final(dealer).hand.status == HandStatus::Busted,
                spec_hand_value(final(dealer).hand.cards@),
                final(all_players_at_table)@[0].hands@.len() > 1,
            );
            let user_natural = final(all_players_at_table)@[0].hands[0].status
                == HandStatus::Blackjack;
            let dealer_natural = spec_is_natural_blackjack(final(dealer).hand.cards@.take(2));
            &&& final(session_stats).total_wins == spec_sat_u32(
                old(session_stats).total_wins + (if user_natural && !dealer_natural {
                    1int
                } else {
                    0int
                }) + st.wins,
            )
            &&& final(session_stats).total_losses == spec_sat_u32(
                old(session_stats).total_losses + st.losses,
            )
            &&& final(session_stats).total_pushes == spec_sat_u32(
                old(session_stats).total_pushes + (if user_natural && dealer_natural {
                    1int
                } else {
                    0int
                }) + st.pushes,
            )
            &&& final(session_stats).blackjacks_dealt_player == spec_sat_u32(
                old(session_stats).blackjacks_dealt_player + (if user_natural {
                    1int
                } else {
                    0int
                }),
            )
        }),
{
    {
        let u = &mut all_players_at_table[0];
        u.reset_round_flags();
    }
    if *your_player_balance < default_bet {
        return false;
    }
    session_stats.hands_played_session = session_stats.hands_played_session.saturating_add(1);
    reset_table_for_round(all_players_at_table, dealer, default_bet);
    if !deal_initial_cards(deck, all_players_at_table, dealer) {
        return false;
    }
    let your_bj_resolved = resolve_user_natural(
        &mut all_players_at_table[0],
        dealer,
        your_player_balance,
        session_stats,
    );
    let ghost bal1 = *your_player_balance;
    let ghost stats1 = *session_stats;
    let ghost deck1 = deck@;
    proof {
        let b = default_bet as int;
        assert(0 <= b * 6 / 5 <= 2 * b) by (nonlinear_arith)
            requires
                b >= 1,
        {}
    }
    let dealer_upcard_val = dealer.hand.cards[0].rank.value().0;
    let n = all_players_at_table.len();
    let ghost user_dealt_cards = all_players_at_table@[0].hands@[0].cards@;
    proof {
        let d = old(deck)@;
        let dlen = d.len() as int;
        assert(user_dealt_cards =~= seq![d[dlen - 1], d[dlen - (n as int) - 2]]);
    }
    let mut user_shoe_ok = true;
    if !your_bj_resolved {
        proof {
            assert(all_players_at_table@[0].hands[0].status == HandStatus::Active);
        }
        let ghost pre_deck = deck@;
        user_shoe_ok = play_seat_book(
            deck,
            &mut all_players_at_table[0],
            dealer_upcard_val,
            *your_player_balance,
            session_stats,
            true,
        );
        proof {
            lemma_deck_prefix_trans(deck1, pre_deck, deck@);
        }
    }
    let ghost user_after = all_players_at_table@[0];
    let mut si: usize = 1;
    while si < n
        invariant
            n == all_players_at_table@.len(),
            n == old(all_players_at_table)@.len(),
            n >= 1,
            1 <= si <= n,
            deck.wf(),
            deck.spec_initial_size() == old(deck).spec_initial_size(),
            spec_deck_prefix(deck1, deck@),
            spec_deck_prefix(old(deck)@, deck1),
            1 <= default_bet <= config::MONEY_CAP,
            forall|j: int|
                0 <= j < n ==> spec_same_seat(
                    old(all_players_at_table)@[j],
                    #[trigger] all_players_at_table@[j],
                ),
            all_players_at_table@[0].is_user,
            forall|j: int| 1 <= j < n ==> !(#[trigger] all_players_at_table@[j]).is_user,
            all_players_at_table@[0] == user_after,
            1 <= user_after.hands@.len() <= 4,
            forall|h: int|
                0 <= h < user_after.hands@.len() ==> 0 <= (#[trigger] user_after.hands[h]).bet
                    <= 2 * default_bet,
            your_bj_resolved ==> user_after.hands@.len() == 1 && user_after.hands[0].status
                == HandStatus::Blackjack && user_after.hands[0].bet == default_bet,
            !your_bj_resolved ==> forall|j: int|
                0 <= j < user_after.hands@.len() ==> (#[trigger] user_after.hands[j]).status
                    != HandStatus::Blackjack,
            user_shoe_ok && !your_bj_resolved ==> forall|j: int|
                0 <= j < user_after.hands@.len() ==> (#[trigger] user_after.hands[j]).status
                    != HandStatus::Active,
            !user_shoe_ok ==> deck@.len() == 0,
            forall|j: int|
                si <= j < n ==> (#[trigger] all_players_at_table@[j]).hands@.len() == 1
                    && all_players_at_table@[j].hands[0].bet == 0
                    && all_players_at_table@[j].hands[0].status == HandStatus::Active,
            forall|j: int|
                0 <= j < n ==> 1 <= (#[trigger] all_players_at_table@[j]).hands@.len(),
            forall|j: int|
                1 <= j < si ==> 1 <= (#[trigger] all_players_at_table@[j]).hands@.len() <= 4,
            forall|j: int, h: int|
                1 <= j < si && 0 <= h < all_players_at_table@[j].hands@.len()
                    ==> spec_book_outcome_justified(
                    #[trigger] all_players_at_table@[j].hands[h],
                    dealer_upcard_val as int,
                ),
            *your_player_balance == bal1,
            spec_stats_same_but_split_double(stats1, *session_stats),
        decreases n - si,
    {
        if all_players_at_table[si].hands[0].is_natural_blackjack() {
            let p = &mut all_players_at_table[si];
            p.hands[0].status = HandStatus::Blackjack;
            si += 1;
            continue ;
        }
        let ghost pre_deck = deck@;
        play_seat_book(
            deck,
            &mut all_players_at_table[si],
            dealer_upcard_val,
            *your_player_balance,
            session_stats,
            true,
        );
        proof {
            lemma_deck_prefix_trans(deck1, pre_deck, deck@);
        }
        si += 1;
    }
    let ghost dealer_dealt = dealer.hand.cards@;
    if any_hand_needs_dealer_play(all_players_at_table) {
        let ghost pre_deck = deck@;
        play_dealer_hand(deck, dealer);
        proof {
            lemma_deck_prefix_trans(deck1, pre_deck, deck@);
            assert(dealer.hand.cards@.take(2) == dealer_dealt);
        }
    } else {
        proof {
            assert(dealer.hand.cards@.take(2) =~= dealer_dealt);
        }
    }
    let ghost st = spec_settle(
        all_players_at_table@[0].hands@,
        dealer.hand.status == HandStatus::Busted,
        spec_hand_value(dealer.hand.cards@),
        all_players_at_table@[0].hands@.len() > 1,
    );
    proof {
        if your_bj_resolved {
            let hs = all_players_at_table@[0].hands@;
            let db = dealer.hand.status == HandStatus::Busted;
            let cmp = spec_hand_value(dealer.hand.cards@);
            let many = hs.len() > 1;
            assert(hs.len() == 1);
            assert(hs.drop_last().len() == 0);
            assert(hs.last() == hs[0]);
            assert(hs.last().status == HandStatus::Blackjack);
            assert(spec_hand_net(hs.last(), db, cmp) == 0);
            assert(!spec_hand_is_win(hs.last(), db, cmp) && !spec_hand_is_loss(hs.last(), db, cmp)
                && !spec_hand_is_push(hs.last(), db, cmp));
            assert(spec_settle(hs.drop_last(), db, cmp, many).net == 0
                && spec_settle(hs.drop_last(), db, cmp, many).split_net == 0
                && spec_settle(hs.drop_last(), db, cmp, many).doubled_net == 0
                && spec_settle(hs.drop_last(), db, cmp, many).wins == 0
                && spec_settle(hs.drop_last(), db, cmp, many).losses == 0
                && spec_settle(hs.drop_last(), db, cmp, many).pushes == 0);
            assert(st.net == 0 && st.split_net == 0 && st.doubled_net == 0 && st.wins == 0
                && st.losses == 0 && st.pushes == 0);
        } else {
            lemma_settle_bounds(
                all_players_at_table@[0].hands@,
                dealer.hand.status == HandStatus::Busted,
                spec_hand_value(dealer.hand.cards@),
                all_players_at_table@[0].hands@.len() > 1,
                2 * default_bet,
            );
            assert(all_players_at_table@[0].hands@.len() * (2 * default_bet) <= 8 * default_bet)
                by (nonlinear_arith)
                requires
                    1 <= all_players_at_table@[0].hands@.len() <= 4,
                    default_bet >= 1,
            {}
        }
    }
    proof {
        let d = old(deck)@;
        let dlen = d.len() as int;
        let seats = n as int;
        assert(dealer_dealt =~= seq![d[dlen - 1 - seats], d[dlen - 2 * seats - 2]]);
        assert(dealer.hand.cards@.len() >= 2);
        assert(dealer_upcard_val as int == spec_rank_value(dealer.hand.cards@[0].rank));
        assert(dealer.hand.cards@[0] == dealer.hand.cards@.take(2)[0]);
        assert(dealer.hand.cards@[1] == dealer.hand.cards@.take(2)[1]);
        if deck@.len() > 0 && all_players_at_table@[0].hands@.len() == 1 {
            assert(user_shoe_ok);
            let uc = all_players_at_table@[0].hands@[0].cards@;
            assert(uc.len() >= 2);
            assert(uc[0] == uc.take(2)[0] && uc[1] == uc.take(2)[1]);
            assert(uc[0] == d[dlen - 1] && uc[1] == d[dlen - seats - 2]);
        }
        assert forall|i: int|
            0 <= i < all_players_at_table@.len() implies 1 <= (
        #[trigger] all_players_at_table@[i]).hands@.len() <= 4 by {
            if i == 0 {
                assert(all_players_at_table@[0] == user_after);
            }
        }
        assert forall|i: int, j: int|
            0 <= i < all_players_at_table@.len() && 0 <= j
                < all_players_at_table@[i].hands@.len() implies spec_book_outcome_justified(
            #[trigger] all_players_at_table@[i].hands[j],
            spec_rank_value(dealer.hand.cards@[0].rank),
        ) by {
            assert(spec_rank_value(dealer.hand.cards@[0].rank) == dealer_upcard_val as int);
            if i == 0 {
                assert(all_players_at_table@[0] == user_after);
                if your_bj_resolved {
                    assert(user_after.hands[j].status == HandStatus::Blackjack);
                }
            }
        }
    }
    settle_user_hands(&all_players_at_table[0], dealer, your_player_balance, session_stats);
    true
}

/// Runs `num_iterations` simulated rounds: the shoe is replaced whenever
/// its remaining fraction drops below the reshuffle threshold, the human
/// seat auto-bets the default and plays by the book, and the session ends
/// early when the balance can no longer cover the default bet (before a
/// round) or the minimum bet (after one), or when a round cannot finish.
/// Returns the session statistics and the balance after every completed
/// round, starting with the opening balance.
pub fn run_simulation(
    run_id: u64,
    mode: String,
    num_iterations: u32,
    num_decks: usize,
    num_players: usize,
    starting_balance: i64,
    default_bet: i64,
    min_bet: i64,
) -> (r: (SessionStats, Vec<i64>))
    requires
        1 <= num_decks,
        52 * num_decks <= usize::MAX,
        1 <= num_players,
        1 <= min_bet,
        1 <= default_bet,
        0 <= starting_balance,
        starting_balance + (num_iterations as int + 1) * 8 * default_bet <= config::MONEY_CAP,
    ensures
        r.1@.len() >= 1,
        r.1@[0] == starting_balance,
        r.1@.len() <= num_iterations + 1,
        forall|k: int|
            0 <= k < r.1@.len() ==> -config::MONEY_CAP <= #[trigger] r.1@[k] <= config::MONEY_CAP,
        r.0.run_id == run_id,
        r.0.mode == mode,
        r.0.target_iterations == Some(num_iterations),
        r.0.initial_balance == starting_balance,
        r.0.final_balance == r.1@.last(),
        r.0.net_profit_loss == r.0.final_balance - r.0.initial_balance,
        // Every recorded balance after the first follows a played hand,
        // and each round moves the balance by at most eight default bets
        // (four hands, each doubled at most once).
        r.0.hands_played_session >= r.1@.len() - 1,
        forall|k: int|
            1 <= k < r.1@.len() ==> r.1@[k - 1] - 8 * default_bet <= #[trigger] r.1@[k]
                <= r.1@[k - 1] + 8 * default_bet,
        // When the configuration can cover the first bet and the first
        // deal, at least one round certainly completes, whatever the
        // shuffle drew.
        num_iterations >= 1 && starting_balance >= default_bet && 52 * num_decks >= 2 * (
        num_players + 1) ==> r.1@.len() >= 2,
{
    let mut your_player_balance: i64 = starting_balance;
    let mut session_stats = SessionStats::new(run_id, mode, starting_balance);
    session_stats.target_iterations = Some(num_iterations);
    let mut deck = Deck::new(num_decks);
    let mut balance_history: Vec<i64> = Vec::new();
    balance_history.push(your_player_balance);
    let mut i: u32 = 0;
    while i < num_iterations
        invariant
            i <= num_iterations,
            1 <= num_decks,
            52 * num_decks <= usize::MAX,
            1 <= num_players,
            1 <= min_bet,
            1 <= default_bet,
            0 <= starting_balance,
            starting_balance + (num_iterations as int + 1) * 8 * default_bet <= config::MONEY_CAP,
            deck.wf(),
            balance_history@.len() >= 1,
            balance_history@[0] == starting_balance,
            balance_history@.len() <= i + 1,
            balance_history@.last() == your_player_balance,
            forall|k: int|
                0 <= k < balance_history@.len() ==> -config::MONEY_CAP
                    <= #[trigger] balance_history@[k] <= config::MONEY_CAP,
            starting_balance - (i as int) * 8 * default_bet <= your_player_balance
                <= starting_balance + (i as int) * 8 * default_bet,
            -config::MONEY_CAP <= your_player_balance <= config::MONEY_CAP,
            -config::MONEY_CAP <= session_stats.earnings_from_split_hands <= config::MONEY_CAP,
            -((i as int) * 8 * default_bet) <= session_stats.earnings_from_split_hands,
            session_stats.earnings_from_split_hands <= (i as int) * 8 * default_bet,
            -((i as int) * 8 * default_bet) <= session_stats.earnings_from_doubled_hands,
            session_stats.earnings_from_doubled_hands <= (i as int) * 8 * default_bet,
            -config::MONEY_CAP <= session_stats.earnings_from_doubled_hands <= config::MONEY_CAP,
            session_stats.run_id == run_id,
            session_stats.mode == mode,
            session_stats.target_iterations == Some(num_iterations),
            session_stats.initial_balance == starting_balance,
            session_stats.final_balance == starting_balance,
            session_stats.hands_played_session as int >= balance_history@.len() - 1,
            forall|k: int|
                1 <= k < balance_history@.len() ==> balance_history@[k - 1] - 8 * default_bet
                    <= #[trigger] balance_history@[k] <= balance_history@[k - 1] + 8
                    * default_bet,
            num_iterations >= 1 && starting_balance >= default_bet && 52 * num_decks >= 2 * (
            num_players + 1) ==> (balance_history@.len() >= 2 || (i == 0 && your_player_balance
                == starting_balance && deck@.len() == 52 * num_decks)),
        ensures
            num_iterations >= 1 && starting_balance >= default_bet && 52 * num_decks >= 2 * (
            num_players + 1) ==> balance_history@.len() >= 2,
        decreases num_iterations - i,
    {
        if deck.needs_reshuffle(config::RESHUFFLE_THRESHOLD_NUM, config::RESHUFFLE_THRESHOLD_DEN) {
            deck = Deck::new(num_decks);
        }
        let mut all_players_at_table: Vec<Player> = Vec::new();
        all_players_at_table.push(Player::new_user(0, String::new(), 0));
        let mut p_id: usize = 1;
        while p_id < num_players
            invariant
                1 <= p_id <= num_players,
                all_players_at_table@.len() == p_id,
                all_players_at_table@[0].is_user,
                forall|j: int| 1 <= j < p_id ==> !(#[trigger] all_players_at_table@[j]).is_user,
                forall|j: int|
                    0 <= j < p_id ==> (#[trigger] all_players_at_table@[j]).hands@.len() == 1,
            decreases num_players - p_id,
        {
            all_players_at_table.push(Player::new_ai(p_id, String::new()));
            p_id += 1;
        }
        let mut dealer = Dealer::new();
        if your_player_balance < default_bet {
            break ;
        }
        let ghost pre_balance = your_player_balance;
        let ghost pre_deck_len = deck@.len() as int;
        let completed = play_blackjack_round(
            &mut deck,
            &mut all_players_at_table,
            &mut dealer,
            &mut your_player_balance,
            &mut session_stats,
            default_bet,
        );
        proof {
            assert((i as int) * 8 * default_bet + 8 * default_bet == (i as int + 1) * 8
                * default_bet) by (nonlinear_arith);
            assert((i as int + 1) * 8 * default_bet <= (num_iterations as int + 1) * 8
                * default_bet) by (nonlinear_arith)
                requires
                    i < num_iterations,
                    default_bet >= 1,
            {}
            if num_iterations >= 1 && starting_balance >= default_bet && 52 * num_decks >= 2 * (
            num_players + 1) && i == 0 && balance_history@.len() < 2 {
                assert(pre_deck_len == 52 * num_decks);
                assert(completed);
            }
        }
        if !completed {
            break ;
        }
        balance_history.push(your_player_balance);
        session_stats.update_balance_extremes(your_player_balance);
        i += 1;
        if your_player_balance < min_bet {
            break ;
        }
    }
    session_stats.final_balance = your_player_balance;
    session_stats.calculate_final_metrics();
    (session_stats, balance_history)
}

} // verus!
