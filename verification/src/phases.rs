use vstd::prelude::*;
use crate::bids::{Bid, BiddingCommand, PlayerAction};
use crate::cards::Card;
use crate::seats::{PlayerPosition, Team};

verus! {

/// A copy of a vector of plain values.
pub fn copy_vec<T: Copy>(v: &Vec<T>) -> (r: Vec<T>)
    ensures
        r@ == v@,
{
    let mut r: Vec<T> = Vec::new();
    let mut i: usize = 0;
    while i < v.len()
        invariant
            i <= v.len(),
            r@ == v@.subrange(0, i as int),
        decreases v.len() - i,
    {
        r.push(v[i]);
        i = i + 1;
    }
    assert(r@ =~= v@);
    r
}

/// The state of the auction.
#[derive(Clone, Debug)]
pub struct BiddingState {
    pub history: Vec<(PlayerPosition, BiddingCommand)>,
    pub highest_bid: Option<Bid>,
    pub highest_bidder: Option<PlayerPosition>,
    pub consecutive_passes: u8,
    pub bidding_finished: bool,
    pub is_doubled: bool,
    pub is_redoubled: bool,
}

/// The auction as a mathematical value.
pub struct BiddingModel {
    pub history: Seq<(PlayerPosition, BiddingCommand)>,
    pub highest_bid: Option<Bid>,
    pub highest_bidder: Option<PlayerPosition>,
    pub consecutive_passes: u8,
    pub bidding_finished: bool,
    pub is_doubled: bool,
    pub is_redoubled: bool,
}

impl View for BiddingState {
    type V = BiddingModel;

    open spec fn view(&self) -> BiddingModel {
        BiddingModel {
            history: self.history@,
            highest_bid: self.highest_bid,
            highest_bidder: self.highest_bidder,
            consecutive_passes: self.consecutive_passes,
            bidding_finished: self.bidding_finished,
            is_doubled: self.is_doubled,
            is_redoubled: self.is_redoubled,
        }
    }
}

/// The auction before anyone has spoken.
pub open spec fn empty_auction() -> BiddingModel {
    BiddingModel {
        history: Seq::empty(),
        highest_bid: None,
        highest_bidder: None,
        consecutive_passes: 0,
        bidding_finished: false,
        is_doubled: false,
        is_redoubled: false,
    }
}

impl Default for BiddingState {
    fn default() -> (r: Self)
        ensures
            r@ == empty_auction(),
    {
        BiddingState {
            history: Vec::new(),
            highest_bid: None,
            highest_bidder: None,
            consecutive_passes: 0,
            bidding_finished: false,
            is_doubled: false,
            is_redoubled: false,
        }
    }
}

impl BiddingState {
    /// A copy of the auction.
    pub fn duplicate(&self) -> (r: Self)
        ensures
            r@ == self@,
    {
        BiddingState {
            history: copy_vec(&self.history),
            highest_bid: self.highest_bid,
            highest_bidder: self.highest_bidder,
            consecutive_passes: self.consecutive_passes,
            bidding_finished: self.bidding_finished,
            is_doubled: self.is_doubled,
            is_redoubled: self.is_redoubled,
        }
    }
}

/// The state of the play: the contract, who plays it and the tricks so far.
#[derive(Clone, Copy, Debug, PartialEq, Eq, Structural)]
pub struct PlayingState {
    pub contract: Bid,
    pub is_doubled: bool,
    pub is_redoubled: bool,
    pub declarer: PlayerPosition,
    pub dummy: PlayerPosition,
    pub tricks_won_ns: u8,
    pub tricks_won_ew: u8,
    pub trick_lead: PlayerPosition,
}

/// The phase of a deal.
#[derive(Clone, Debug)]
pub enum GamePhaseData {
    Bidding(BiddingState),
    Playing(PlayingState),
    Finished { winner_team: Option<Team>, score: i32 },
}

/// The phase of a deal as a mathematical value.
pub enum PhaseModel {
    Bidding(BiddingModel),
    Playing(PlayingState),
    Finished { winner_team: Option<Team>, score: i32 },
}

impl View for GamePhaseData {
    type V = PhaseModel;

    open spec fn view(&self) -> PhaseModel {
        match self {
            GamePhaseData::Bidding(bs) => PhaseModel::Bidding(bs@),
            GamePhaseData::Playing(ps) => PhaseModel::Playing(*ps),
            GamePhaseData::Finished { winner_team, score } => PhaseModel::Finished {
                winner_team: *winner_team,
                score: *score,
            },
        }
    }
}

impl GamePhaseData {
    /// A copy of the phase.
    pub fn duplicate(&self) -> (r: Self)
        ensures
            r@ == self@,
    {
        match self {
            GamePhaseData::Bidding(bs) => GamePhaseData::Bidding(bs.duplicate()),
            GamePhaseData::Playing(ps) => GamePhaseData::Playing(*ps),
            GamePhaseData::Finished { winner_team, score } => GamePhaseData::Finished {
                winner_team: *winner_team,
                score: *score,
            },
        }
    }
}

/// The cards that one player holds, as sent to that player.
#[derive(Clone, Debug)]
pub struct PrivateHandData {
    pub my_hand: Vec<Card>,
}

/// What last happened at the table.
#[derive(Clone, Debug)]
pub enum ActionInfo {
    Action(PlayerPosition, PlayerAction),
    StatusMessage(String),
}

/// A player's score.
#[derive(Clone, Copy, Debug)]
pub struct Score {
    pub player_score: usize,
}

/// A number of cards still to be played.
#[derive(Clone, Copy, Debug)]
pub struct CountCards {
    pub cards_left: usize,
}

/// The changes sent with a push: the cards on the table, one slot per seat
/// clockwise from North, the last action, the scores and the cards left.
#[derive(Clone, Debug)]
pub struct GameUpdateData {
    pub table_cards: Vec<Option<Card>>,
    pub last_action: Option<ActionInfo>,
    pub scores: Vec<Score>,
    pub cards_left: CountCards,
}

/// A push from the table to a player.
#[derive(Clone, Debug)]
pub struct ServerPush {
    pub current_phase: GamePhaseData,
    pub current_turn: PlayerPosition,
    pub update_data: GameUpdateData,
}

/// What one player may see of the deal. The table and the card counts hold
/// one slot per seat, clockwise from North; the count of the player's own
/// seat is `None`.
#[derive(Clone, Debug)]
pub struct PublicGameState {
    pub pot: i32,
    pub my_hand: Vec<Card>,
    pub dummy_hand: Option<Vec<Card>>,
    pub table: Vec<Option<Card>>,
    pub current_turn: PlayerPosition,
    pub phase: GamePhaseData,
    pub your_pos: PlayerPosition,
    pub opponent_card_counts: Vec<Option<usize>>,
}

} // verus!
