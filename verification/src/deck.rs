use vstd::prelude::*;
use rand::seq::SliceRandom;
use crate::cards::{Card, Rank, Suit};

verus! {

/// The suit with the given number, clubs first.
pub open spec fn suit_at(i: int) -> Suit {
    if i == 0 {
        Suit::Clubs
    } else if i == 1 {
        Suit::Diamonds
    } else if i == 2 {
        Suit::Hearts
    } else {
        Suit::Spades
    }
}

/// The rank with the given number, two first.
pub open spec fn rank_at(i: int) -> Rank {
    if i == 0 {
        Rank::Two
    } else if i == 1 {
        Rank::Three
    } else if i == 2 {
        Rank::Four
    } else if i == 3 {
        Rank::Five
    } else if i == 4 {
        Rank::Six
    } else if i == 5 {
        Rank::Seven
    } else if i == 6 {
        Rank::Eight
    } else if i == 7 {
        Rank::Nine
    } else if i == 8 {
        Rank::Ten
    } else if i == 9 {
        Rank::Jack
    } else if i == 10 {
        Rank::Queen
    } else if i == 11 {
        Rank::King
    } else {
        Rank::Ace
    }
}

/// The fifty-two cards in the order of a new pack: suit by suit from clubs
/// to spades, and within a suit from two to ace.
pub open spec fn full_deck() -> Seq<Card> {
    Seq::new(52, |i: int| Card { suit: suit_at(i / 13), rank: rank_at(i % 13) })
}

/// `s` holds the same cards as `deck`, each as often, in some order.
pub open spec fn is_shuffle_of(s: Seq<Card>, deck: Seq<Card>) -> bool {
    s.len() == deck.len() && s.to_multiset() == deck.to_multiset()
}

/// The four hands are the first four runs of thirteen cards of `s`.
pub open spec fn hands_are_runs_of(hands: Seq<Seq<Card>>, s: Seq<Card>) -> bool {
    &&& hands.len() == 4
    &&& forall|k: int| 0 <= k < 4 ==> #[trigger] hands[k] == s.subrange(13 * k, 13 * k + 13)
}

/// The hands were dealt from some shuffle of `deck`.
pub open spec fn is_deal_of(hands: Seq<Seq<Card>>, deck: Seq<Card>) -> bool {
    exists|s: Seq<Card>| #[trigger] is_shuffle_of(s, deck) && hands_are_runs_of(hands, s)
}

/// A pack of cards.
pub struct Deck(pub Vec<Card>);

/// Puts the cards in a random order by `rand`'s `SliceRandom::shuffle` with
/// the thread's generator. Claimed: the result holds the same cards, each as
/// often, and as many. Which order comes out is left open.
#[verifier::external_body]
fn shuffle_cards(cards: &mut Vec<Card>)
    ensures
        is_shuffle_of(final(cards)@, old(cards)@),
{
    cards.shuffle(&mut rand::rng());
}

/// The run of thirteen cards that starts at `start`.
fn run_of_thirteen(cards: &Vec<Card>, start: usize) -> (r: Vec<Card>)
    requires
        start + 13 <= cards.len(),
    ensures
        r@ == cards@.subrange(start as int, start + 13),
{
    let mut r: Vec<Card> = Vec::new();
    let mut i: usize = start;
    while i < start + 13
        invariant
            start <= i <= start + 13,
            start + 13 <= cards.len(),
            r@ == cards@.subrange(start as int, i as int),
        decreases start + 13 - i,
    {
        r.push(cards[i]);
        i = i + 1;
    }
    r
}

proof fn lemma_deck_index(s: int, r: int)
    requires
        0 <= s < 4,
        0 <= r < 13,
    ensures
        (13 * s + r) / 13 == s,
        (13 * s + r) % 13 == r,
{
    vstd::arithmetic::div_mod::lemma_fundamental_div_mod_converse(13 * s + r, 13, s, r);
}

impl Deck {
    /// A new pack, in order.
    pub fn new() -> (r: Self)
        ensures
            r.0@ == full_deck(),
    {
        let suits: [Suit; 4] = [Suit::Clubs, Suit::Diamonds, Suit::Hearts, Suit::Spades];
        let ranks: [Rank; 13] = [
            Rank::Two,
            Rank::Three,
            Rank::Four,
            Rank::Five,
            Rank::Six,
            Rank::Seven,
            Rank::Eight,
            Rank::Nine,
            Rank::Ten,
            Rank::Jack,
            Rank::Queen,
            Rank::King,
            Rank::Ace,
        ];
        let mut deck: Vec<Card> = Vec::with_capacity(52);
        let mut s: usize = 0;
        while s < 4
            invariant
                s <= 4,
                forall|i: int| 0 <= i < 4 ==> #[trigger] suits@[i] == suit_at(i),
                forall|i: int| 0 <= i < 13 ==> #[trigger] ranks@[i] == rank_at(i),
                deck@ == full_deck().subrange(0, 13 * s as int),
            decreases 4 - s,
        {
            let mut r: usize = 0;
            while r < 13
                invariant
                    s < 4,
                    r <= 13,
                    forall|i: int| 0 <= i < 4 ==> #[trigger] suits@[i] == suit_at(i),
                    forall|i: int| 0 <= i < 13 ==> #[trigger] ranks@[i] == rank_at(i),
                    deck@ == full_deck().subrange(0, 13 * s + r),
                decreases 13 - r,
            {
                proof {
                    lemma_deck_index(s as int, r as int);
                }
                deck.push(Card { suit: suits[s], rank: ranks[r] });
                assert(deck@ =~= full_deck().subrange(0, 13 * s + r + 1));
                r = r + 1;
            }
            s = s + 1;
        }
        assert(deck@ =~= full_deck());
        Deck(deck)
    }

    /// Shuffles the pack and deals four hands of thirteen cards: the first
    /// thirteen cards of the shuffled pack to the first hand, and so on.
    pub fn deal(self) -> (r: [Vec<Card>; 4])
        requires
            self.0@.len() >= 52,
        ensures
            is_deal_of(seq![r[0]@, r[1]@, r[2]@, r[3]@], self.0@),
    {
        let (a, b, c, d) = self.deal_hands();
        [a, b, c, d]
    }

    fn deal_hands(self) -> (r: (Vec<Card>, Vec<Card>, Vec<Card>, Vec<Card>))
        requires
            self.0@.len() >= 52,
        ensures
            is_deal_of(seq![r.0@, r.1@, r.2@, r.3@], self.0@),
    {
        let ghost deck = self.0@;
        let mut cards = self.0;
        shuffle_cards(&mut cards);
        let a = run_of_thirteen(&cards, 0);
        let b = run_of_thirteen(&cards, 13);
        let c = run_of_thirteen(&cards, 26);
        let d = run_of_thirteen(&cards, 39);
        proof {
            let hands = seq![a@, b@, c@, d@];
            assert(hands_are_runs_of(hands, cards@));
            assert(is_shuffle_of(cards@, deck));
        }
        (a, b, c, d)
    }
}

proof fn lemma_suit_rank_numbers(i: int, j: int)
    requires
        0 <= i < 52,
        0 <= j < 52,
        suit_at(i / 13) == suit_at(j / 13),
        rank_at(i % 13) == rank_at(j % 13),
    ensures
        i == j,
{
    vstd::arithmetic::div_mod::lemma_fundamental_div_mod(i, 13);
    vstd::arithmetic::div_mod::lemma_fundamental_div_mod(j, 13);
    assert(0 <= i / 13 < 4 && 0 <= j / 13 < 4) by (nonlinear_arith)
        requires
            0 <= i < 52,
            0 <= j < 52,
    ;
}

/// A new pack holds fifty-two different cards.
pub proof fn lemma_full_deck_distinct()
    ensures
        full_deck().len() == 52,
        forall|i: int, j: int|
            0 <= i < j < 52 ==> #[trigger] full_deck()[i] != #[trigger] full_deck()[j],
{
    assert forall|i: int, j: int| 0 <= i < j < 52 implies #[trigger] full_deck()[i]
        != #[trigger] full_deck()[j] by {
        if full_deck()[i] == full_deck()[j] {
            lemma_suit_rank_numbers(i, j);
        }
    }
}

/// A deal hands out thirteen cards to each of the four hands, and the four
/// hands together hold exactly the cards of a full pack.
pub proof fn lemma_deal_partitions_deck(hands: Seq<Seq<Card>>, deck: Seq<Card>)
    requires
        is_deal_of(hands, deck),
        deck.len() == 52,
    ensures
        hands.len() == 4,
        forall|k: int| 0 <= k < 4 ==> (#[trigger] hands[k]).len() == 13,
        (hands[0] + hands[1] + hands[2] + hands[3]).to_multiset() == deck.to_multiset(),
{
    let s = choose|s: Seq<Card>| #[trigger] is_shuffle_of(s, deck) && hands_are_runs_of(hands, s);
    assert(hands[0] == s.subrange(0, 13));
    assert(hands[1] == s.subrange(13, 26));
    assert(hands[2] == s.subrange(26, 39));
    assert(hands[3] == s.subrange(39, 52));
    assert(hands[0] + hands[1] + hands[2] + hands[3] =~= s);
}

} // verus!
