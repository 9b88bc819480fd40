use rand::seq::SliceRandom;
use vstd::prelude::*;

verus! {

/// One of the four French suits; suits never affect valuation, only display.
#[derive(Debug, Clone, Copy, PartialEq, Eq, Hash, Structural)]
pub enum Suit {
    Heart,
    Diamond,
    Club,
    Spade,
}

/// A card rank. Jack, Queen and King count 10; an Ace starts at 11 and may be
/// reduced to 1 by the soft-ace rule.
#[derive(Debug, Clone, Copy, PartialEq, Eq, Hash, Structural)]
pub enum Rank {
    Two,
    Three,
    Four,
    Five,
    Six,
    Seven,
    Eight,
    Nine,
    Ten,
    Jack,
    Queen,
    King,
    Ace,
}

/// Primary numeric value of a rank: face value for 2-10, 10 for the court
/// cards, and 11 for an Ace (before any soft reduction).
pub open spec fn spec_rank_value(r: Rank) -> int {
    match r {
        Rank::Two => 2,
        Rank::Three => 3,
        Rank::Four => 4,
        Rank::Five => 5,
        Rank::Six => 6,
        Rank::Seven => 7,
        Rank::Eight => 8,
        Rank::Nine => 9,
        Rank::Ten => 10,
        Rank::Jack => 10,
        Rank::Queen => 10,
        Rank::King => 10,
        Rank::Ace => 11,
    }
}

/// True exactly of the Ace: the only rank whose value can be reduced.
pub open spec fn spec_is_ace(r: Rank) -> bool {
    r == Rank::Ace
}

/// Pairing value used for split eligibility: ten and the court cards all
/// pair with each other (10), while an Ace keeps the distinct value 11 so
/// that A-A pairs but A-10 does not.
pub open spec fn spec_pair_value(r: Rank) -> int {
    spec_rank_value(r)
}

impl Rank {
    /// Returns the primary value and whether the rank is an Ace counted as 11.
    pub fn value(&self) -> (r: (u8, bool))
        ensures
            r.0 == spec_rank_value(*self),
            r.1 == spec_is_ace(*self),
    {
        match self {
            Rank::Two => (2, false),
            Rank::Three => (3, false),
            Rank::Four => (4, false),
            Rank::Five => (5, false),
            Rank::Six => (6, false),
            Rank::Seven => (7, false),
            Rank::Eight => (8, false),
            Rank::Nine => (9, false),
            Rank::Ten => (10, false),
            Rank::Jack => (10, false),
            Rank::Queen => (10, false),
            Rank::King => (10, false),
            Rank::Ace => (11, true),
        }
    }

    /// Value used when testing whether two cards form a splittable pair.
    pub fn blackjack_value(&self) -> (r: u8)
        ensures
            r == spec_pair_value(*self),
    {
        match self {
            Rank::Ace => 11,
            _ => self.value().0,
        }
    }
}

/// An immutable playing card.
#[derive(Debug, Clone, Copy, PartialEq, Eq, Hash, Structural)]
pub struct Card {
    pub rank: Rank,
    pub suit: Suit,
}

/// The card that a fresh, unshuffled deck holds at offset `j` (0 <= j < 52):
/// suit-major, rank-minor order.
pub open spec fn spec_card_at(j: int) -> Card {
    Card { rank: spec_rank_of_index(j % 13), suit: spec_suit_of_index(j / 13) }
}

pub open spec fn spec_suit_of_index(k: int) -> Suit {
    if k == 0 {
        Suit::Heart
    } else if k == 1 {
        Suit::Diamond
    } else if k == 2 {
        Suit::Club
    } else {
        Suit::Spade
    }
}

pub open spec fn spec_rank_of_index(k: int) -> Rank {
    if k == 0 {
        Rank::Two
    } else if k == 1 {
        Rank::Three
    } else if k == 2 {
        Rank::Four
    } else if k == 3 {
        Rank::Five
    } else if k == 4 {
        Rank::Six
    } else if k == 5 {
        Rank::Seven
    } else if k == 6 {
        Rank::Eight
    } else if k == 7 {
        Rank::Nine
    } else if k == 8 {
        Rank::Ten
    } else if k == 9 {
        Rank::Jack
    } else if k == 10 {
        Rank::Queen
    } else if k == 11 {
        Rank::King
    } else {
        Rank::Ace
    }
}

/// The cards of a fresh shoe of `num_decks` decks, in build order.
pub open spec fn spec_fresh_shoe(num_decks: int) -> Seq<Card> {
    Seq::new((num_decks * 52) as nat, |i: int| spec_card_at(i % 52))
}

fn suit_of_index(k: usize) -> (s: Suit)
    requires
        k < 4,
    ensures
        s == spec_suit_of_index(k as int),
{
    if k == 0 {
        Suit::Heart
    } else if k == 1 {
        Suit::Diamond
    } else if k == 2 {
        Suit::Club
    } else {
        Suit::Spade
    }
}

fn rank_of_index(k: usize) -> (r: Rank)
    requires
        k < 13,
    ensures
        r == spec_rank_of_index(k as int),
{
    if k == 0 {
        Rank::Two
    } else if k == 1 {
        Rank::Three
    } else if k == 2 {
        Rank::Four
    } else if k == 3 {
        Rank::Five
    } else if k == 4 {
        Rank::Six
    } else if k == 5 {
        Rank::Seven
    } else if k == 6 {
        Rank::Eight
    } else if k == 7 {
        Rank::Nine
    } else if k == 8 {
        Rank::Ten
    } else if k == 9 {
        Rank::Jack
    } else if k == 10 {
        Rank::Queen
    } else if k == 11 {
        Rank::King
    } else {
        Rank::Ace
    }
}

/// Relies on rand's SliceRandom::shuffle (a Fisher-Yates in-place swap
/// permutation, driven by thread_rng): it reorders the elements and neither
/// adds nor removes any, so the multiset of cards is unchanged whatever
/// permutation was drawn.
#[verifier::external_body]
fn shuffle_in_place(cards: &mut Vec<Card>)
    ensures
        final(cards)@.to_multiset() == old(cards)@.to_multiset(),
        final(cards)@.len() == old(cards)@.len(),
{
    let mut rng = rand::thread_rng();
    cards.shuffle(&mut rng);
}

/// A shoe: the ordered cards still to be dealt (dealt from the tail),
/// plus the fixed size it was built with.
#[derive(Debug)]
pub struct Deck {
    cards: Vec<Card>,
    pub initial_size: usize,
}

impl View for Deck {
    type V = Seq<Card>;

    closed spec fn view(&self) -> Seq<Card> {
        self.cards@
    }
}

impl Deck {
    /// The size the shoe was built with, as contracts speak of it.
    pub closed spec fn spec_initial_size(&self) -> int {
        self.initial_size as int
    }

    /// The shoe never holds more cards than it was built with.
    pub closed spec fn wf(&self) -> bool {
        self@.len() <= self.initial_size
    }

    /// Builds `num_decks` standard 52-card decks (one card of each rank and
    /// suit combination per deck) and shuffles them.
    pub fn new(num_decks: usize) -> (deck: Deck)
        requires
            1 <= num_decks,
            52 * num_decks <= usize::MAX,
        ensures
            deck.wf(),
            deck.spec_initial_size() == 52 * num_decks,
            deck@.len() == 52 * num_decks,
            deck@.to_multiset() == spec_fresh_shoe(num_decks as int).to_multiset(),
    {
        let total: usize = 52 * num_decks;
        let mut cards: Vec<Card> = Vec::new();
        let mut i: usize = 0;
        while i < total
            invariant
                i <= total,
                total == 52 * num_decks,
                cards@ =~= spec_fresh_shoe(num_decks as int).take(i as int),
            decreases total - i,
        {
            let j: usize = i % 52;
            let card = Card { rank: rank_of_index(j % 13), suit: suit_of_index(j / 13) };
            cards.push(card);
            proof {
                assert(card == spec_card_at(i as int % 52));
            }
            i += 1;
        }
        proof {
            assert(cards@ =~= spec_fresh_shoe(num_decks as int));
        }
        let mut deck = Deck { cards, initial_size: total };
        deck.shuffle();
        deck
    }

    /// A shoe with a known arrangement (cards are dealt from the tail):
    /// the fixed-response shoe that scripted rounds and tests are built
    /// on.
    pub fn from_cards(cards: Vec<Card>) -> (deck: Deck)
        ensures
            deck@ == cards@,
            deck.spec_initial_size() == cards@.len(),
            deck.wf(),
    {
        let initial_size = cards.len();
        Deck { cards, initial_size }
    }

    /// Uniform in-place reshuffle of the remaining cards; the cards
    /// themselves are unchanged as a multiset.
    pub fn shuffle(&mut self)
        ensures
            final(self)@.to_multiset() == old(self)@.to_multiset(),
            final(self)@.len() == old(self)@.len(),
            final(self).spec_initial_size() == old(self).spec_initial_size(),
            old(self).wf() ==> final(self).wf(),
    {
        shuffle_in_place(&mut self.cards);
    }

    /// Removes and returns the top card (the tail of the sequence), or
    /// `None` if the shoe is exhausted.
    pub fn deal(&mut self) -> (c: Option<Card>)
        ensures
            old(self)@.len() == 0 ==> c is None && final(self)@ == old(self)@,
            old(self)@.len() > 0 ==> c == Some(old(self)@.last()) && final(self)@ == old(
                self,
            )@.drop_last(),
            final(self).spec_initial_size() == old(self).spec_initial_size(),
            old(self).wf() ==> final(self).wf(),
    {
        self.cards.pop()
    }

    /// True when the fraction of cards remaining has dropped below
    /// `threshold_num / threshold_den`: the policy point at which the shoe
    /// is to be replaced before the next round.
    pub fn needs_reshuffle(&self, threshold_num: u64, threshold_den: u64) -> (r: bool)
        ensures
            r <==> self@.len() * threshold_den < self.spec_initial_size() * threshold_num,
    {
        let remaining: u128 = self.cards.len() as u128;
        let den: u128 = threshold_den as u128;
        let initial: u128 = self.initial_size as u128;
        let num: u128 = threshold_num as u128;
        proof {
            assert(remaining * den <= u128::MAX && initial * num <= u128::MAX)
                by (nonlinear_arith)
                requires
                    remaining <= u64::MAX,
                    den <= u64::MAX,
                    initial <= u64::MAX,
                    num <= u64::MAX,
            {}
        }
        remaining * den < initial * num
    }

    pub fn len(&self) -> (n: usize)
        ensures
            n == self@.len(),
    {
        self.cards.len()
    }

    pub fn is_empty(&self) -> (r: bool)
        ensures
            r <==> self@.len() == 0,
    {
        self.cards.is_empty()
    }
}

} // verus!
