use vstd::prelude::*;
use crate::cards::{Card, Suit};

verus! {

/// The number of tricks above six that a bid promises.
#[derive(Clone, Copy, Debug, PartialEq, Eq, Structural)]
pub enum BidLevel {
    One,
    Two,
    Three,
    Four,
    Five,
    Six,
    Seven,
}

/// A call in the auction: a level and a trump suit, `None` for no trumps.
#[derive(Clone, Copy, Debug, PartialEq, Eq, Structural)]
pub struct Bid {
    pub level: BidLevel,
    pub suit: Option<Suit>,
}

/// What a player may say in the auction.
#[derive(Clone, Copy, Debug, PartialEq, Eq, Structural)]
pub enum BiddingCommand {
    MakeBid { bid: Bid },
    Pass,
    Redouble,
    Double,
}

/// What a player may do in the play.
#[derive(Clone, Copy, Debug, PartialEq, Eq, Structural)]
pub enum PlayingCommand {
    PlayCard { card: Card },
}

/// An action that a player sends to the table.
#[derive(Clone, Copy, Debug, PartialEq, Eq, Structural)]
pub enum PlayerAction {
    Playing(PlayingCommand),
    Bidding(BiddingCommand),
}

/// The number of a level, one to seven.
pub open spec fn level_value(level: BidLevel) -> int {
    match level {
        BidLevel::One => 1,
        BidLevel::Two => 2,
        BidLevel::Three => 3,
        BidLevel::Four => 4,
        BidLevel::Five => 5,
        BidLevel::Six => 6,
        BidLevel::Seven => 7,
    }
}

/// The rank of a denomination in the auction: clubs lowest, no trumps highest.
pub open spec fn denomination_value(suit: Option<Suit>) -> int {
    match suit {
        Some(Suit::Clubs) => 0,
        Some(Suit::Diamonds) => 1,
        Some(Suit::Hearts) => 2,
        Some(Suit::Spades) => 3,
        None => 4,
    }
}

/// The place of a bid in the order of the auction: five per level, then the
/// denomination.
pub open spec fn bid_value(bid: Bid) -> int {
    level_value(bid.level) * 5 + denomination_value(bid.suit)
}

impl BidLevel {
    /// The number of the level.
    pub fn val(&self) -> (r: u8)
        ensures
            r == level_value(*self),
            1 <= r <= 7,
    {
        match self {
            BidLevel::One => 1,
            BidLevel::Two => 2,
            BidLevel::Three => 3,
            BidLevel::Four => 4,
            BidLevel::Five => 5,
            BidLevel::Six => 6,
            BidLevel::Seven => 7,
        }
    }
}

impl Bid {
    /// The place of the bid in the order of the auction.
    pub fn value(&self) -> (r: u8)
        ensures
            r == bid_value(*self),
            5 <= r <= 39,
    {
        let suit_value: u8 = match self.suit {
            Some(Suit::Clubs) => 0,
            Some(Suit::Diamonds) => 1,
            Some(Suit::Hearts) => 2,
            Some(Suit::Spades) => 3,
            None => 4,
        };
        (self.level.val() * 5) + suit_value
    }

    /// Whether this bid outranks `other` in the auction.
    pub fn is_higher_than(&self, other: &Bid) -> (r: bool)
        ensures
            r == (bid_value(*self) > bid_value(*other)),
    {
        self.value() > other.value()
    }
}

/// Every bid has its own place in the order of the auction, so of two
/// different bids exactly one outranks the other.
pub proof fn lemma_bid_order_total(a: Bid, b: Bid)
    ensures
        bid_value(a) == bid_value(b) <==> a == b,
        a != b ==> (bid_value(a) > bid_value(b) || bid_value(b) > bid_value(a)),
        !(bid_value(a) > bid_value(a)),
{
}

/// Outranking is transitive.
pub proof fn lemma_bid_order_transitive(a: Bid, b: Bid, c: Bid)
    requires
        bid_value(a) > bid_value(b),
        bid_value(b) > bid_value(c),
    ensures
        bid_value(a) > bid_value(c),
{
}

} // verus!
