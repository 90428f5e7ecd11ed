use vstd::prelude::*;
use crate::bids::{Bid, BidLevel};
use crate::cards::{rank_value, spec_rank_value, Card, Rank, Suit};
use crate::seats::{seat, PlayerPosition};

verus! {

/// The symbol of a suit.
pub open spec fn spec_suit_symbol(suit: Suit) -> Seq<char> {
    match suit {
        Suit::Spades => "♠"@,
        Suit::Hearts => "♥"@,
        Suit::Diamonds => "♦"@,
        Suit::Clubs => "♣"@,
    }
}

/// The symbol of a suit.
pub fn suit_symbol(suit: Suit) -> (r: &'static str)
    ensures
        r@ == spec_suit_symbol(suit),
{
    match suit {
        Suit::Spades => "♠",
        Suit::Hearts => "♥",
        Suit::Diamonds => "♦",
        Suit::Clubs => "♣",
    }
}

/// The colour a suit is printed in: red for hearts and diamonds, else black.
pub fn suit_color(suit: Suit) -> (r: &'static str)
    ensures
        r@ == match suit {
            Suit::Hearts | Suit::Diamonds => "red"@,
            _ => "black"@,
        },
{
    match suit {
        Suit::Hearts | Suit::Diamonds => "red",
        _ => "black",
    }
}

/// The digit of a level.
pub open spec fn level_text(level: BidLevel) -> Seq<char> {
    match level {
        BidLevel::One => "1"@,
        BidLevel::Two => "2"@,
        BidLevel::Three => "3"@,
        BidLevel::Four => "4"@,
        BidLevel::Five => "5"@,
        BidLevel::Six => "6"@,
        BidLevel::Seven => "7"@,
    }
}

/// The sign of a denomination: a suit symbol, or `NT` for no trumps.
pub open spec fn denomination_text(suit: Option<Suit>) -> Seq<char> {
    match suit {
        Some(s) => spec_suit_symbol(s),
        None => "NT"@,
    }
}

/// A bid as it is shown: the level, then the denomination, such as `4♠`.
pub fn format_bid(bid: &Bid) -> (r: String)
    ensures
        r@ == level_text(bid.level) + denomination_text(bid.suit),
{
    let l: &str = match bid.level {
        BidLevel::One => "1",
        BidLevel::Two => "2",
        BidLevel::Three => "3",
        BidLevel::Four => "4",
        BidLevel::Five => "5",
        BidLevel::Six => "6",
        BidLevel::Seven => "7",
    };
    let s: &str = match bid.suit {
        Some(Suit::Clubs) => "♣",
        Some(Suit::Diamonds) => "♦",
        Some(Suit::Hearts) => "♥",
        Some(Suit::Spades) => "♠",
        None => "NT",
    };
    String::from_str(l).concat(s)
}

/// The index of a rank as it is shown.
pub fn rank_str(card: &Card) -> (r: &'static str)
    ensures
        r@ == match card.rank {
            Rank::Two => "2"@,
            Rank::Three => "3"@,
            Rank::Four => "4"@,
            Rank::Five => "5"@,
            Rank::Six => "6"@,
            Rank::Seven => "7"@,
            Rank::Eight => "8"@,
            Rank::Nine => "9"@,
            Rank::Ten => "10"@,
            Rank::Jack => "J"@,
            Rank::Queen => "Q"@,
            Rank::King => "K"@,
            Rank::Ace => "A"@,
        },
{
    match card.rank {
        Rank::Two => "2",
        Rank::Three => "3",
        Rank::Four => "4",
        Rank::Five => "5",
        Rank::Six => "6",
        Rank::Seven => "7",
        Rank::Eight => "8",
        Rank::Nine => "9",
        Rank::Ten => "10",
        Rank::Jack => "J",
        Rank::Queen => "Q",
        Rank::King => "K",
        Rank::Ace => "A",
    }
}

/// The place of a suit in a displayed hand: spades, hearts, diamonds, clubs.
pub open spec fn spec_suit_order(suit: Suit) -> int {
    match suit {
        Suit::Spades => 0,
        Suit::Hearts => 1,
        Suit::Diamonds => 2,
        Suit::Clubs => 3,
    }
}

/// The place of a suit in a displayed hand.
pub fn suit_order(suit: Suit) -> (r: u8)
    ensures
        r == spec_suit_order(suit),
{
    match suit {
        Suit::Spades => 0,
        Suit::Hearts => 1,
        Suit::Diamonds => 2,
        Suit::Clubs => 3,
    }
}

/// The number of a seat, clockwise from North at zero.
pub fn pos_index(pos: PlayerPosition) -> (r: i32)
    ensures
        r == seat(pos),
{
    match pos {
        PlayerPosition::North => 0,
        PlayerPosition::East => 1,
        PlayerPosition::South => 2,
        PlayerPosition::West => 3,
    }
}

/// The place of a card in a displayed hand: by suit in display order, and
/// within a suit from the ace down.
pub open spec fn display_key(c: Card) -> int {
    spec_suit_order(c.suit) * 16 + (15 - spec_rank_value(c.rank))
}

/// The cards are in display order.
pub open spec fn in_display_order(s: Seq<Card>) -> bool {
    forall|i: int, j: int| 0 <= i < j < s.len() ==> display_key(#[trigger] s[i]) <= display_key(#[trigger] s[j])
}

fn display_key_of(c: &Card) -> (r: u8)
    ensures
        r == display_key(*c),
{
    suit_order(c.suit) * 16 + (15 - rank_value(c))
}

/// Two cards with the same place in display order are the same card.
pub proof fn lemma_display_key_injective(a: Card, b: Card)
    ensures
        display_key(a) == display_key(b) ==> a == b,
{
}

/// Puts the cards in display order: spades, hearts, diamonds, clubs, and
/// within a suit from the ace down.
pub fn sort_hand(cards: &mut Vec<Card>)
    ensures
        final(cards)@.to_multiset() == old(cards)@.to_multiset(),
        final(cards)@.len() == old(cards)@.len(),
        in_display_order(final(cards)@),
        forall|i: int, j: int|
            0 <= i < j < final(cards)@.len() ==> spec_suit_order(#[trigger] final(cards)@[i].suit)
                <= spec_suit_order(#[trigger] final(cards)@[j].suit),
        forall|i: int, j: int|
            0 <= i < j < final(cards)@.len() && (#[trigger] final(cards)@[i]).suit == (
            #[trigger] final(cards)@[j]).suit ==> spec_rank_value(final(cards)@[i].rank)
                >= spec_rank_value(final(cards)@[j].rank),
{
    let mut sorted: Vec<Card> = Vec::new();
    let mut i: usize = 0;
    assert(sorted@ =~= cards@.subrange(0, 0));
    while i < cards.len()
        invariant
            i <= cards@.len(),
            sorted@.to_multiset() == cards@.subrange(0, i as int).to_multiset(),
            sorted@.len() == i,
            in_display_order(sorted@),
        decreases cards@.len() - i,
    {
        let c = cards[i];
        let k = display_key_of(&c);
        let mut pos: usize = 0;
        while pos < sorted.len() && display_key_of(&sorted[pos]) <= k
            invariant
                pos <= sorted@.len(),
                k == display_key(c),
                forall|j: int| 0 <= j < pos ==> display_key(#[trigger] sorted@[j]) <= k,
            decreases sorted@.len() - pos,
        {
            pos = pos + 1;
        }
        proof {
            if pos < sorted@.len() {
                assert(display_key(sorted@[pos as int]) > k);
            }
        }
        let ghost before = sorted@;
        sorted.insert(pos, c);
        proof {
            assert(cards@.subrange(0, i + 1) =~= cards@.subrange(0, i as int).push(c));
            assert(sorted@ == before.insert(pos as int, c));
            vstd::seq_lib::to_multiset_insert(before, pos as int, c);
            vstd::seq_lib::to_multiset_build(cards@.subrange(0, i as int), c);
            assert(before.insert(pos as int, c).to_multiset() == before.to_multiset().insert(c));
            assert(cards@.subrange(0, i as int).push(c).to_multiset() == cards@.subrange(
                0,
                i as int,
            ).to_multiset().insert(c));
            assert forall|a: int, b: int| 0 <= a < b < sorted@.len() implies display_key(
                #[trigger] sorted@[a],
            ) <= display_key(#[trigger] sorted@[b]) by {
                if a < pos && b > pos {
                    assert(sorted@[b] == before[b - 1]);
                    assert(before[pos as int] == sorted@[pos + 1]);
                    if b - 1 > pos {
                        assert(display_key(before[pos as int]) <= display_key(before[b - 1]));
                    }
                } else if a == pos && b > pos {
                    assert(sorted@[b] == before[b - 1]);
                    assert(display_key(before[pos as int]) > k);
                    if b - 1 > pos {
                        assert(display_key(before[pos as int]) <= display_key(before[b - 1]));
                    }
                } else if a > pos {
                    assert(sorted@[a] == before[a - 1]);
                    assert(sorted@[b] == before[b - 1]);
                }
            }
        }
        i = i + 1;
    }
    proof {
        assert(cards@.subrange(0, cards@.len() as int) =~= cards@);
    }
    proof {
        lemma_display_order_meaning(sorted@);
    }
    *cards = sorted;
}

/// The cards of one suit, in their order.
pub open spec fn of_suit(cards: Seq<Card>, suit: Suit) -> Seq<Card> {
    cards.filter(|c: Card| c.suit == suit)
}

/// The suit of each displayed column: spades, hearts, diamonds, clubs.
pub open spec fn column_suit(k: int) -> Suit {
    if k == 0 {
        Suit::Spades
    } else if k == 1 {
        Suit::Hearts
    } else if k == 2 {
        Suit::Diamonds
    } else {
        Suit::Clubs
    }
}

/// A column of the display: the cards of `suit` in `cards`, from the ace
/// down.
pub open spec fn is_suit_column(column: Seq<Card>, cards: Seq<Card>, suit: Suit) -> bool {
    &&& column.to_multiset() == of_suit(cards, suit).to_multiset()
    &&& column.len() == of_suit(cards, suit).len()
    &&& in_display_order(column)
}

fn suit_column(cards: &Vec<Card>, suit: Suit) -> (r: Vec<Card>)
    ensures
        is_suit_column(r@, cards@, suit),
        forall|i: int| 0 <= i < r@.len() ==> (#[trigger] r@[i]).suit == suit,
        forall|i: int, j: int|
            0 <= i < j < r@.len() ==> spec_rank_value(#[trigger] r@[i].rank) >= spec_rank_value(
                #[trigger] r@[j].rank,
            ),
{
    let mut group: Vec<Card> = Vec::new();
    let mut i: usize = 0;
    while i < cards.len()
        invariant
            i <= cards@.len(),
            group@ == of_suit(cards@.subrange(0, i as int), suit),
            forall|k: int| 0 <= k < group@.len() ==> (#[trigger] group@[k]).suit == suit,
        decreases cards@.len() - i,
    {
        proof {
            reveal_with_fuel(Seq::filter, 1);
            assert(cards@.subrange(0, i + 1).drop_last() =~= cards@.subrange(0, i as int));
        }
        if cards[i].suit == suit {
            group.push(cards[i]);
        }
        i = i + 1;
    }
    proof {
        assert(cards@.subrange(0, cards@.len() as int) =~= cards@);
    }
    let ghost unsorted = group@;
    sort_hand(&mut group);
    proof {
        unsorted.to_multiset_ensures();
        group@.to_multiset_ensures();
        assert forall|i: int| 0 <= i < group@.len() implies (#[trigger] group@[i]).suit == suit by {
            assert(group@.contains(group@[i]));
            assert(group@.to_multiset().count(group@[i]) > 0);
            assert(unsorted.to_multiset().count(group@[i]) > 0);
            assert(unsorted.contains(group@[i]));
        }
    }
    group
}

/// Splits the cards into four columns, spades, hearts, diamonds and clubs,
/// each from the ace down.
pub fn group_by_suit(cards: Vec<Card>) -> (r: [(Suit, Vec<Card>); 4])
    ensures
        forall|k: int| 0 <= k < 4 ==> (#[trigger] r@[k]).0 == column_suit(k) && is_suit_column(r@[k].1@, cards@, column_suit(k)),
        forall|k: int, i: int| 0 <= k < 4 && 0 <= i < r@[k].1@.len() ==> (#[trigger] r@[k].1@[i]).suit == column_suit(k),
        forall|k: int, i: int, j: int|
            0 <= k < 4 && 0 <= i < j < r@[k].1@.len() ==> spec_rank_value(#[trigger] r@[k].1@[i].rank)
                >= spec_rank_value(#[trigger] r@[k].1@[j].rank),
{
    let spades = suit_column(&cards, Suit::Spades);
    let hearts = suit_column(&cards, Suit::Hearts);
    let diamonds = suit_column(&cards, Suit::Diamonds);
    let clubs = suit_column(&cards, Suit::Clubs);
    [(Suit::Spades, spades), (Suit::Hearts, hearts), (Suit::Diamonds, diamonds), (Suit::Clubs, clubs)]
}

/// Cards in display order run through the suits spades, hearts, diamonds,
/// clubs, and within each suit from the ace down to the two.
pub proof fn lemma_display_order_meaning(s: Seq<Card>)
    requires
        in_display_order(s),
    ensures
        forall|i: int, j: int|
            0 <= i < j < s.len() ==> spec_suit_order(#[trigger] s[i].suit) <= spec_suit_order(
                #[trigger] s[j].suit,
            ),
        forall|i: int, j: int|
            0 <= i < j < s.len() && (#[trigger] s[i]).suit == (#[trigger] s[j]).suit
                ==> spec_rank_value(s[i].rank) >= spec_rank_value(s[j].rank),
{
    assert forall|i: int, j: int| 0 <= i < j < s.len() implies spec_suit_order(
        #[trigger] s[i].suit,
    ) <= spec_suit_order(#[trigger] s[j].suit) by {
        assert(display_key(s[i]) <= display_key(s[j]));
    }
    assert forall|i: int, j: int|
        0 <= i < j < s.len() && (#[trigger] s[i]).suit == (#[trigger] s[j]).suit implies spec_rank_value(
        s[i].rank,
    ) >= spec_rank_value(s[j].rank) by {
        assert(display_key(s[i]) <= display_key(s[j]));
    }
}

} // verus!
