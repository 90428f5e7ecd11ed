use rusty_bridge::bids::{Bid, BidLevel, BiddingCommand, PlayerAction, PlayingCommand};
use rusty_bridge::cards::{Card, Rank, Suit};
use rusty_bridge::engine::apply_action;
use rusty_bridge::game::GameState;
use rusty_bridge::phases::{BiddingState, GamePhaseData, PlayingState};
use rusty_bridge::play::process_play_card;
use rusty_bridge::seats::{PlayerPosition, Team};
use rusty_bridge::trick::{beats, evaluate_trick, validate_card_play};

fn c(suit: Suit, rank: Rank) -> Card {
    Card { suit, rank }
}

fn playing(ps: PlayingState, hands: Vec<Vec<Card>>, current: PlayerPosition) -> GameState {
    GameState {
        hands: hands.into_iter().map(Some).collect(),
        table: vec![None, None, None, None],
        current_player: current,
        pot: 0,
        phase: GamePhaseData::Playing(ps),
    }
}

fn four_spades_by_north() -> PlayingState {
    PlayingState {
        contract: Bid { level: BidLevel::Four, suit: Some(Suit::Spades) },
        is_doubled: false,
        is_redoubled: false,
        declarer: PlayerPosition::North,
        dummy: PlayerPosition::South,
        tricks_won_ns: 0,
        tricks_won_ew: 0,
        trick_lead: PlayerPosition::East,
    }
}

fn ps_of(s: &GameState) -> PlayingState {
    match &s.phase {
        GamePhaseData::Playing(ps) => *ps,
        _ => panic!("not in the play"),
    }
}

#[test]
fn follow_suit_rules() {
    let hand = vec![c(Suit::Hearts, Rank::Two), c(Suit::Clubs, Rank::Ace)];
    assert_eq!(validate_card_play(&hand, &c(Suit::Clubs, Rank::Ace), None), Ok(()));
    assert_eq!(validate_card_play(&hand, &c(Suit::Hearts, Rank::Two), Some(Suit::Hearts)), Ok(()));
    assert_eq!(
        validate_card_play(&hand, &c(Suit::Clubs, Rank::Ace), Some(Suit::Hearts)),
        Err("Du musst Hearts bedienen!".to_string())
    );
    assert_eq!(validate_card_play(&hand, &c(Suit::Clubs, Rank::Ace), Some(Suit::Spades)), Ok(()));
}

#[test]
fn trick_winner_rules() {
    let led = Suit::Hearts;
    // a trump beats the led suit
    assert!(beats(&c(Suit::Spades, Rank::Two), &c(Suit::Hearts, Rank::Ace), led, Some(Suit::Spades)));
    // a discard never wins
    assert!(!beats(&c(Suit::Clubs, Rank::Ace), &c(Suit::Hearts, Rank::Two), led, Some(Suit::Spades)));
    // higher card of the led suit wins at no trumps
    assert!(beats(&c(Suit::Hearts, Rank::King), &c(Suit::Hearts, Rank::Queen), led, None));
    let table = vec![
        Some(c(Suit::Hearts, Rank::Ten)),
        Some(c(Suit::Hearts, Rank::King)),
        Some(c(Suit::Spades, Rank::Two)),
        Some(c(Suit::Clubs, Rank::Ace)),
    ];
    assert_eq!(evaluate_trick(&table, PlayerPosition::North, None), PlayerPosition::East);
    assert_eq!(evaluate_trick(&table, PlayerPosition::North, Some(Suit::Spades)), PlayerPosition::South);
    assert_eq!(evaluate_trick(&table, PlayerPosition::West, None), PlayerPosition::West);
    assert_eq!(evaluate_trick(&table, PlayerPosition::West, Some(Suit::Hearts)), PlayerPosition::East);
}

#[test]
fn play_refusals_leave_state_unchanged() {
    let hands = vec![
        vec![c(Suit::Spades, Rank::Ace)],
        vec![c(Suit::Hearts, Rank::Two), c(Suit::Clubs, Rank::Three)],
        vec![c(Suit::Spades, Rank::King)],
        vec![c(Suit::Hearts, Rank::Ace)],
    ];
    let mut s = playing(four_spades_by_north(), hands.clone(), PlayerPosition::East);
    assert_eq!(
        process_play_card(&mut s, PlayerPosition::North, c(Suit::Spades, Rank::Ace)),
        Err("Du bist nicht am Zug!".to_string())
    );
    assert_eq!(
        process_play_card(&mut s, PlayerPosition::East, c(Suit::Diamonds, Rank::Ace)),
        Err("Karte nicht auf der Hand!".to_string())
    );
    assert_eq!(s.hands[1].as_ref().unwrap().len(), 2);
    s.hands[1] = None;
    assert_eq!(
        process_play_card(&mut s, PlayerPosition::East, c(Suit::Hearts, Rank::Two)),
        Err("Spieler hat keine Hand".to_string())
    );
    let mut bidding = s.clone();
    bidding.phase = GamePhaseData::Bidding(BiddingState::default());
    assert_eq!(
        process_play_card(&mut bidding, PlayerPosition::East, c(Suit::Hearts, Rank::Two)),
        Err("Nicht in der Spielphase!".to_string())
    );
}

#[test]
fn declarer_plays_for_dummy_and_trick_is_scored() {
    let hands = vec![
        vec![c(Suit::Spades, Rank::Ace), c(Suit::Diamonds, Rank::Two)],
        vec![c(Suit::Hearts, Rank::Two), c(Suit::Hearts, Rank::Three)],
        vec![c(Suit::Spades, Rank::King), c(Suit::Hearts, Rank::Four)],
        vec![c(Suit::Hearts, Rank::Ace), c(Suit::Clubs, Rank::Two)],
    ];
    let mut s = playing(four_spades_by_north(), hands, PlayerPosition::East);
    assert_eq!(process_play_card(&mut s, PlayerPosition::East, c(Suit::Hearts, Rank::Two)), Ok(()));
    assert_eq!(s.table[1], Some(c(Suit::Hearts, Rank::Two)));
    assert_eq!(s.hands[1].as_ref().unwrap().len(), 1);
    assert_eq!(s.current_player, PlayerPosition::South);
    // dummy must follow suit: the declarer plays a heart from dummy's hand
    assert_eq!(
        process_play_card(&mut s, PlayerPosition::North, c(Suit::Spades, Rank::King)),
        Err("Du musst Hearts bedienen!".to_string())
    );
    assert_eq!(process_play_card(&mut s, PlayerPosition::North, c(Suit::Hearts, Rank::Four)), Ok(()));
    assert_eq!(s.table[2], Some(c(Suit::Hearts, Rank::Four)));
    assert_eq!(process_play_card(&mut s, PlayerPosition::West, c(Suit::Hearts, Rank::Ace)), Ok(()));
    // North has no heart and ruffs
    assert_eq!(process_play_card(&mut s, PlayerPosition::North, c(Suit::Spades, Rank::Ace)), Ok(()));
    let ps = ps_of(&s);
    assert_eq!(ps.tricks_won_ns, 1);
    assert_eq!(ps.tricks_won_ew, 0);
    assert_eq!(ps.trick_lead, PlayerPosition::North);
    assert_eq!(s.current_player, PlayerPosition::North);
    assert!(s.table.iter().all(|t| t.is_none()));
}

#[test]
fn thirteenth_trick_ends_the_deal() {
    let mut ps = four_spades_by_north();
    ps.tricks_won_ns = 9;
    ps.tricks_won_ew = 3;
    ps.trick_lead = PlayerPosition::North;
    let hands = vec![
        vec![c(Suit::Spades, Rank::Ace)],
        vec![c(Suit::Spades, Rank::Two)],
        vec![c(Suit::Spades, Rank::Three)],
        vec![c(Suit::Spades, Rank::Four)],
    ];
    let mut s = playing(ps, hands, PlayerPosition::North);
    let order = [PlayerPosition::North, PlayerPosition::East, PlayerPosition::North, PlayerPosition::West];
    let cards = [
        c(Suit::Spades, Rank::Ace),
        c(Suit::Spades, Rank::Two),
        c(Suit::Spades, Rank::Three),
        c(Suit::Spades, Rank::Four),
    ];
    for (p, card) in order.iter().zip(cards.iter()) {
        assert_eq!(process_play_card(&mut s, *p, *card), Ok(()));
    }
    match s.phase {
        GamePhaseData::Finished { winner_team, score } => {
            // ten tricks in four spades: 120 + 300 game bonus
            assert_eq!(winner_team, Some(Team::NordSouth));
            assert_eq!(score, 420);
        }
        _ => panic!("the deal is over"),
    }
}

#[test]
fn defeated_contract_scores_for_defenders() {
    let mut ps = four_spades_by_north();
    ps.tricks_won_ns = 8;
    ps.tricks_won_ew = 4;
    ps.trick_lead = PlayerPosition::East;
    let hands = vec![
        vec![c(Suit::Hearts, Rank::Two)],
        vec![c(Suit::Hearts, Rank::Ace)],
        vec![c(Suit::Hearts, Rank::Three)],
        vec![c(Suit::Hearts, Rank::Four)],
    ];
    let mut s = playing(ps, hands, PlayerPosition::East);
    let order = [PlayerPosition::East, PlayerPosition::North, PlayerPosition::West, PlayerPosition::North];
    let cards = [
        c(Suit::Hearts, Rank::Ace),
        c(Suit::Hearts, Rank::Three),
        c(Suit::Hearts, Rank::Four),
        c(Suit::Hearts, Rank::Two),
    ];
    for (p, card) in order.iter().zip(cards.iter()) {
        assert_eq!(process_play_card(&mut s, *p, *card), Ok(()));
    }
    match s.phase {
        GamePhaseData::Finished { winner_team, score } => {
            assert_eq!(winner_team, Some(Team::EastWest));
            assert_eq!(score, 100);
        }
        _ => panic!("the deal is over"),
    }
}

#[test]
fn apply_action_runs_auction_into_play() {
    let mut s = GameState::default();
    let one_nt = BiddingCommand::MakeBid { bid: Bid { level: BidLevel::One, suit: None } };
    assert_eq!(apply_action(&mut s, PlayerPosition::North, PlayerAction::Bidding(one_nt)), Ok(()));
    for p in [PlayerPosition::East, PlayerPosition::South] {
        assert_eq!(apply_action(&mut s, p, PlayerAction::Bidding(BiddingCommand::Pass)), Ok(()));
    }
    assert!(matches!(s.phase, GamePhaseData::Bidding(_)));
    assert_eq!(apply_action(&mut s, PlayerPosition::West, PlayerAction::Bidding(BiddingCommand::Pass)), Ok(()));
    let ps = ps_of(&s);
    assert_eq!(ps.declarer, PlayerPosition::North);
    assert_eq!(s.current_player, PlayerPosition::East);
    let lead = s.hands[1].as_ref().unwrap()[0];
    let r = apply_action(&mut s, PlayerPosition::East, PlayerAction::Playing(PlayingCommand::PlayCard { card: lead }));
    assert_eq!(r, Ok(()));
    assert_eq!(s.table[1], Some(lead));
    assert_eq!(s.hands[1].as_ref().unwrap().len(), 12);
}

fn census(s: &GameState) -> usize {
    let held: usize = s.hands.iter().map(|h| h.as_ref().map_or(0, |v| v.len())).sum();
    let on_table = s.table.iter().filter(|t| t.is_some()).count();
    let ps = ps_of(s);
    held + on_table + 4 * (ps.tricks_won_ns as usize + ps.tricks_won_ew as usize)
}

#[test]
fn cards_are_conserved_through_a_trick() {
    let hands = vec![
        vec![c(Suit::Spades, Rank::Ace), c(Suit::Diamonds, Rank::Two)],
        vec![c(Suit::Hearts, Rank::Two), c(Suit::Hearts, Rank::Three)],
        vec![c(Suit::Spades, Rank::King), c(Suit::Hearts, Rank::Four)],
        vec![c(Suit::Hearts, Rank::Ace), c(Suit::Clubs, Rank::Two)],
    ];
    let mut s = playing(four_spades_by_north(), hands, PlayerPosition::East);
    let start = census(&s);
    assert_eq!(start, 8);
    let plays = [
        (PlayerPosition::East, c(Suit::Hearts, Rank::Three)),
        (PlayerPosition::North, c(Suit::Hearts, Rank::Four)),
        (PlayerPosition::West, c(Suit::Hearts, Rank::Ace)),
        (PlayerPosition::North, c(Suit::Diamonds, Rank::Two)),
    ];
    for (i, (p, card)) in plays.iter().enumerate() {
        assert_eq!(process_play_card(&mut s, *p, *card), Ok(()));
        assert_eq!(census(&s), start);
        let on_table = s.table.iter().filter(|t| t.is_some()).count();
        assert_eq!(on_table, (i + 1) % 4);
    }
    // West's ace of hearts wins: the defenders score the trick and West leads
    let ps = ps_of(&s);
    assert_eq!(ps.tricks_won_ew, 1);
    assert_eq!(s.current_player, PlayerPosition::West);
}
