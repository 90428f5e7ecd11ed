use rusty_bridge::auction::{finalize_bidding, process_bid};
use rusty_bridge::bids::{Bid, BidLevel, BiddingCommand};
use rusty_bridge::cards::Suit;
use rusty_bridge::game::GameState;
use rusty_bridge::phases::{BiddingState, GamePhaseData};
use rusty_bridge::seats::{PlayerPosition, Team};

fn auction_state() -> GameState {
    GameState {
        hands: vec![Some(vec![]), Some(vec![]), Some(vec![]), Some(vec![])],
        table: vec![None, None, None, None],
        current_player: PlayerPosition::North,
        pot: 0,
        phase: GamePhaseData::Bidding(BiddingState::default()),
    }
}

fn bid(level: BidLevel, suit: Option<Suit>) -> BiddingCommand {
    BiddingCommand::MakeBid { bid: Bid { level, suit } }
}

fn auction(state: &GameState) -> &BiddingState {
    match &state.phase {
        GamePhaseData::Bidding(bs) => bs,
        _ => panic!("not in the auction"),
    }
}

#[test]
fn call_out_of_turn_is_refused() {
    let mut s = auction_state();
    let r = process_bid(&mut s, PlayerPosition::East, BiddingCommand::Pass);
    assert_eq!(r, Err("Du bist nicht am Zug!".to_string()));
    assert_eq!(s.current_player, PlayerPosition::North);
    assert!(auction(&s).history.is_empty());
}

#[test]
fn call_outside_auction_is_refused() {
    let mut s = auction_state();
    s.phase = GamePhaseData::Finished { winner_team: None, score: 0 };
    let r = process_bid(&mut s, PlayerPosition::North, BiddingCommand::Pass);
    assert_eq!(r, Err("Wir sind nicht in der Reizphase!".to_string()));
}

#[test]
fn four_passes_end_auction_without_contract() {
    let mut s = auction_state();
    for p in [PlayerPosition::North, PlayerPosition::East, PlayerPosition::South] {
        assert_eq!(process_bid(&mut s, p, BiddingCommand::Pass), Ok(()));
        assert!(!auction(&s).bidding_finished);
    }
    assert_eq!(process_bid(&mut s, PlayerPosition::West, BiddingCommand::Pass), Ok(()));
    assert!(auction(&s).bidding_finished);
    assert_eq!(auction(&s).consecutive_passes, 4);
    // the turn stays with the last caller once the auction is over
    assert_eq!(s.current_player, PlayerPosition::West);
    let r = process_bid(&mut s, PlayerPosition::West, BiddingCommand::Pass);
    assert_eq!(r, Err("Reizen ist bereits beendet!".to_string()));
    finalize_bidding(&mut s);
    match s.phase {
        GamePhaseData::Finished { winner_team, score } => {
            assert!(winner_team.is_none());
            assert_eq!(score, 0);
        }
        _ => panic!("all passed: the deal is over"),
    }
}

#[test]
fn lower_bid_is_refused() {
    let mut s = auction_state();
    assert_eq!(process_bid(&mut s, PlayerPosition::North, bid(BidLevel::Two, Some(Suit::Hearts))), Ok(()));
    let r = process_bid(&mut s, PlayerPosition::East, bid(BidLevel::Two, Some(Suit::Diamonds)));
    assert_eq!(r, Err("Gebot muss höher sein als das aktuelle Höchstgebot.".to_string()));
    let r = process_bid(&mut s, PlayerPosition::East, bid(BidLevel::Two, Some(Suit::Hearts)));
    assert!(r.is_err());
    assert_eq!(process_bid(&mut s, PlayerPosition::East, bid(BidLevel::Two, None)), Ok(()));
    assert_eq!(auction(&s).highest_bidder, Some(PlayerPosition::East));
    assert_eq!(auction(&s).history.len(), 2);
}

#[test]
fn double_and_redouble_rules() {
    let mut s = auction_state();
    let r = process_bid(&mut s, PlayerPosition::North, BiddingCommand::Double);
    assert_eq!(r, Err("Du kannst nur kontrieren, wenn bereits ein Gebot abgegeben wurde.".to_string()));
    let r = process_bid(&mut s, PlayerPosition::North, BiddingCommand::Redouble);
    assert_eq!(r, Err("Du kannst nur rekontrieren, wenn vorher kontriert wurde.".to_string()));
    assert_eq!(process_bid(&mut s, PlayerPosition::North, bid(BidLevel::One, Some(Suit::Clubs))), Ok(()));
    assert_eq!(process_bid(&mut s, PlayerPosition::East, BiddingCommand::Double), Ok(()));
    assert!(auction(&s).is_doubled);
    let r = process_bid(&mut s, PlayerPosition::South, BiddingCommand::Double);
    assert_eq!(r, Err("Gebot ist bereits kontriert oder rekontriert.".to_string()));
    assert_eq!(process_bid(&mut s, PlayerPosition::South, BiddingCommand::Redouble), Ok(()));
    assert!(auction(&s).is_redoubled);
    let r = process_bid(&mut s, PlayerPosition::West, BiddingCommand::Redouble);
    assert_eq!(r, Err("Gebot ist bereits rekontriert.".to_string()));
    // a new bid clears the doubles
    assert_eq!(process_bid(&mut s, PlayerPosition::West, bid(BidLevel::One, Some(Suit::Spades))), Ok(()));
    assert!(!auction(&s).is_doubled);
    assert!(!auction(&s).is_redoubled);
    assert_eq!(auction(&s).consecutive_passes, 0);
}

#[test]
fn three_passes_after_bid_start_play_with_first_namer_as_declarer() {
    let mut s = auction_state();
    // North opens 1 spade, East passes, South raises to 2 spades, then three passes
    assert_eq!(process_bid(&mut s, PlayerPosition::North, bid(BidLevel::One, Some(Suit::Spades))), Ok(()));
    assert_eq!(process_bid(&mut s, PlayerPosition::East, BiddingCommand::Pass), Ok(()));
    assert_eq!(process_bid(&mut s, PlayerPosition::South, bid(BidLevel::Two, Some(Suit::Spades))), Ok(()));
    assert_eq!(process_bid(&mut s, PlayerPosition::West, BiddingCommand::Pass), Ok(()));
    assert_eq!(process_bid(&mut s, PlayerPosition::North, BiddingCommand::Pass), Ok(()));
    assert!(!auction(&s).bidding_finished);
    assert_eq!(process_bid(&mut s, PlayerPosition::East, BiddingCommand::Pass), Ok(()));
    assert!(auction(&s).bidding_finished);
    finalize_bidding(&mut s);
    match s.phase {
        GamePhaseData::Playing(ps) => {
            assert_eq!(ps.contract, Bid { level: BidLevel::Two, suit: Some(Suit::Spades) });
            // North named spades first for the North-South side
            assert_eq!(ps.declarer, PlayerPosition::North);
            assert_eq!(ps.dummy, PlayerPosition::South);
            assert_eq!(ps.trick_lead, PlayerPosition::East);
            assert_eq!(ps.tricks_won_ns, 0);
            assert_eq!(ps.tricks_won_ew, 0);
            assert_eq!(ps.declarer.team(), Team::NordSouth);
        }
        _ => panic!("a contract was bid"),
    }
    assert_eq!(s.current_player, PlayerPosition::East);
}

#[test]
fn doubled_contract_carries_into_play() {
    let mut s = auction_state();
    assert_eq!(process_bid(&mut s, PlayerPosition::North, BiddingCommand::Pass), Ok(()));
    assert_eq!(process_bid(&mut s, PlayerPosition::East, bid(BidLevel::Three, None)), Ok(()));
    assert_eq!(process_bid(&mut s, PlayerPosition::South, BiddingCommand::Double), Ok(()));
    for p in [PlayerPosition::West, PlayerPosition::North, PlayerPosition::East] {
        assert_eq!(process_bid(&mut s, p, BiddingCommand::Pass), Ok(()));
    }
    finalize_bidding(&mut s);
    match s.phase {
        GamePhaseData::Playing(ps) => {
            assert!(ps.is_doubled);
            assert!(!ps.is_redoubled);
            assert_eq!(ps.declarer, PlayerPosition::East);
            assert_eq!(ps.dummy, PlayerPosition::West);
        }
        _ => panic!("a contract was bid"),
    }
    assert_eq!(s.current_player, PlayerPosition::South);
}
