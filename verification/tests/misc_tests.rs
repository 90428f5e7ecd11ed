use rusty_bridge::account::AccountType;
use rusty_bridge::bids::{Bid, BidLevel};
use rusty_bridge::cards::{rank_value, Card, Rank, Suit};
use rusty_bridge::display::{
    format_bid, group_by_suit, pos_index, rank_str, sort_hand, suit_color, suit_order, suit_symbol,
};
use rusty_bridge::game::GameState;
use rusty_bridge::lobby::{seat_for_join, Lobby};
use rusty_bridge::phases::{BiddingState, GamePhaseData, PlayingState};
use rusty_bridge::scoring::calculate_bridge_score;
use rusty_bridge::seats::{PlayerPosition, Team};

fn c(suit: Suit, rank: Rank) -> Card {
    Card { suit, rank }
}

#[test]
fn seats_go_round_clockwise() {
    assert_eq!(PlayerPosition::North.next(), PlayerPosition::East);
    assert_eq!(PlayerPosition::West.next(), PlayerPosition::North);
    for p in PlayerPosition::all() {
        assert_eq!(p.next().next().next().next(), p);
        assert_eq!(p.partner(), p.next().next());
        assert_eq!(p.partner().partner(), p);
        assert_eq!(p.partner().team(), p.team());
    }
    assert_eq!(PlayerPosition::all(), [PlayerPosition::North, PlayerPosition::East, PlayerPosition::South, PlayerPosition::West]);
    assert_eq!(PlayerPosition::cycle(0), PlayerPosition::North);
    assert_eq!(PlayerPosition::cycle(6), PlayerPosition::South);
    assert_eq!(PlayerPosition::cycle(11), PlayerPosition::West);
    assert_eq!(PlayerPosition::East.team(), Team::EastWest);
}

#[test]
fn bids_are_ordered_by_level_then_denomination() {
    let one_clubs = Bid { level: BidLevel::One, suit: Some(Suit::Clubs) };
    let one_nt = Bid { level: BidLevel::One, suit: None };
    let two_clubs = Bid { level: BidLevel::Two, suit: Some(Suit::Clubs) };
    let seven_nt = Bid { level: BidLevel::Seven, suit: None };
    assert_eq!(one_clubs.value(), 5);
    assert_eq!(one_nt.value(), 9);
    assert_eq!(seven_nt.value(), 39);
    assert_eq!(BidLevel::Four.val(), 4);
    assert!(two_clubs.is_higher_than(&one_nt));
    assert!(!one_nt.is_higher_than(&two_clubs));
    assert!(!one_nt.is_higher_than(&one_nt));
}

#[test]
fn bridge_scores() {
    let bid = |level, suit| Bid { level, suit };
    // 3NT made exactly: 40 + 2*30 + 300
    assert_eq!(calculate_bridge_score(&bid(BidLevel::Three, None), false, false, 9, false), 400);
    // 2 hearts with one overtrick: 60 + 50 + 30
    assert_eq!(calculate_bridge_score(&bid(BidLevel::Two, Some(Suit::Hearts)), false, false, 9, false), 140);
    // 1 club doubled made with two overtricks: 40 + 50 insult + 50 part score + 200
    assert_eq!(calculate_bridge_score(&bid(BidLevel::One, Some(Suit::Clubs)), true, false, 9, false), 340);
    // 6 diamonds vulnerable made: 120 + 500
    assert_eq!(calculate_bridge_score(&bid(BidLevel::Six, Some(Suit::Diamonds)), false, false, 12, true), 620);
    // 4 spades down three, redoubled vulnerable
    assert_eq!(calculate_bridge_score(&bid(BidLevel::Four, Some(Suit::Spades)), false, true, 7, true), -1200);
    // down one, doubled, not vulnerable
    assert_eq!(calculate_bridge_score(&bid(BidLevel::Four, Some(Suit::Spades)), true, false, 9, false), -100);
    // down two undoubled vulnerable
    assert_eq!(calculate_bridge_score(&bid(BidLevel::Seven, None), false, false, 11, true), -200);
    // doubled and redoubled together: base times eight, both insults, game bonus
    assert_eq!(calculate_bridge_score(&bid(BidLevel::One, Some(Suit::Clubs)), true, true, 7, false), 610);
}

#[test]
fn display_helpers() {
    assert_eq!(suit_symbol(Suit::Spades), "♠");
    assert_eq!(suit_symbol(Suit::Clubs), "♣");
    assert_eq!(suit_color(Suit::Hearts), "red");
    assert_eq!(suit_color(Suit::Diamonds), "red");
    assert_eq!(suit_color(Suit::Spades), "black");
    assert_eq!(format_bid(&Bid { level: BidLevel::Four, suit: Some(Suit::Hearts) }), "4♥");
    assert_eq!(format_bid(&Bid { level: BidLevel::Seven, suit: None }), "7NT");
    assert_eq!(rank_str(&c(Suit::Clubs, Rank::Ten)), "10");
    assert_eq!(rank_str(&c(Suit::Clubs, Rank::Queen)), "Q");
    assert_eq!(rank_value(&c(Suit::Clubs, Rank::Ace)), 14);
    assert_eq!(rank_value(&c(Suit::Clubs, Rank::Two)), 2);
    assert_eq!(suit_order(Suit::Spades), 0);
    assert_eq!(suit_order(Suit::Clubs), 3);
    assert_eq!(pos_index(PlayerPosition::South), 2);
}

#[test]
fn hands_sort_by_suit_then_rank_down() {
    let mut hand = vec![
        c(Suit::Clubs, Rank::Ace),
        c(Suit::Spades, Rank::Two),
        c(Suit::Hearts, Rank::King),
        c(Suit::Spades, Rank::Queen),
        c(Suit::Diamonds, Rank::Ten),
        c(Suit::Hearts, Rank::Three),
    ];
    sort_hand(&mut hand);
    assert_eq!(
        hand,
        vec![
            c(Suit::Spades, Rank::Queen),
            c(Suit::Spades, Rank::Two),
            c(Suit::Hearts, Rank::King),
            c(Suit::Hearts, Rank::Three),
            c(Suit::Diamonds, Rank::Ten),
            c(Suit::Clubs, Rank::Ace),
        ]
    );
    let mut empty: Vec<Card> = vec![];
    sort_hand(&mut empty);
    assert!(empty.is_empty());
}

#[test]
fn hands_group_into_suit_columns() {
    let hand = vec![
        c(Suit::Hearts, Rank::Three),
        c(Suit::Spades, Rank::Two),
        c(Suit::Hearts, Rank::King),
        c(Suit::Spades, Rank::Jack),
    ];
    let groups = group_by_suit(hand);
    assert_eq!(groups[0], (Suit::Spades, vec![c(Suit::Spades, Rank::Jack), c(Suit::Spades, Rank::Two)]));
    assert_eq!(groups[1], (Suit::Hearts, vec![c(Suit::Hearts, Rank::King), c(Suit::Hearts, Rank::Three)]));
    assert_eq!(groups[2], (Suit::Diamonds, vec![]));
    assert_eq!(groups[3], (Suit::Clubs, vec![]));
}

#[test]
fn account_status() {
    assert_eq!(AccountType::from_status("registered"), AccountType::Registered);
    assert_eq!(AccountType::from_status("anonymous"), AccountType::Anonymous);
    assert_eq!(AccountType::from_status("Registered"), AccountType::Anonymous);
    assert_eq!(AccountType::from_status(""), AccountType::Anonymous);
}

#[test]
fn lobby_seats_players_clockwise() {
    let mut lobby: Lobby<u32> = Lobby::new();
    assert!(!lobby.is_full());
    assert_eq!(lobby.add_player(1), Some(PlayerPosition::North));
    assert_eq!(lobby.add_player(2), Some(PlayerPosition::East));
    lobby.players[0] = None;
    assert_eq!(lobby.add_player(3), Some(PlayerPosition::North));
    assert_eq!(lobby.add_player(4), Some(PlayerPosition::South));
    assert_eq!(lobby.add_player(5), Some(PlayerPosition::West));
    assert!(lobby.is_full());
    assert_eq!(lobby.add_player(6), None);
    assert_eq!(lobby.players, vec![Some(3), Some(2), Some(4), Some(5)]);
}

#[test]
fn joining_a_table() {
    let empty: Vec<PlayerPosition> = vec![];
    assert_eq!(seat_for_join(&empty, None), Ok((PlayerPosition::North, false)));
    let three = vec![PlayerPosition::North, PlayerPosition::South, PlayerPosition::West];
    assert_eq!(seat_for_join(&three, None), Ok((PlayerPosition::East, true)));
    assert_eq!(seat_for_join(&three, Some(PlayerPosition::South)), Ok((PlayerPosition::South, false)));
    let four = vec![PlayerPosition::North, PlayerPosition::East, PlayerPosition::South, PlayerPosition::West];
    assert_eq!(seat_for_join(&four, None), Err("Lobby ist voll".to_string()));
    assert_eq!(seat_for_join(&four, Some(PlayerPosition::East)), Ok((PlayerPosition::East, true)));
    let clash = vec![PlayerPosition::North, PlayerPosition::North, PlayerPosition::East];
    assert_eq!(seat_for_join(&clash, None), Ok((PlayerPosition::South, true)));
}

#[test]
fn public_view_hides_other_hands() {
    let hands = vec![
        Some(vec![c(Suit::Spades, Rank::Ace), c(Suit::Spades, Rank::King)]),
        Some(vec![c(Suit::Hearts, Rank::Ace)]),
        Some(vec![c(Suit::Clubs, Rank::Ace), c(Suit::Clubs, Rank::Two), c(Suit::Clubs, Rank::Three)]),
        None,
    ];
    let ps = PlayingState {
        contract: Bid { level: BidLevel::One, suit: None },
        is_doubled: false,
        is_redoubled: false,
        declarer: PlayerPosition::North,
        dummy: PlayerPosition::South,
        tricks_won_ns: 0,
        tricks_won_ew: 0,
        trick_lead: PlayerPosition::East,
    };
    let state = GameState {
        hands,
        table: vec![None, Some(c(Suit::Diamonds, Rank::Four)), None, None],
        current_player: PlayerPosition::South,
        pot: 7,
        phase: GamePhaseData::Playing(ps),
    };
    let view = state.for_player(PlayerPosition::East);
    assert_eq!(view.my_hand, vec![c(Suit::Hearts, Rank::Ace)]);
    assert_eq!(view.dummy_hand.as_ref().map(|h| h.len()), Some(3));
    assert_eq!(view.opponent_card_counts, vec![Some(2), None, Some(3), Some(0)]);
    assert_eq!(view.table, state.table);
    assert_eq!(view.current_turn, PlayerPosition::South);
    assert_eq!(view.your_pos, PlayerPosition::East);
    assert_eq!(view.pot, 7);
    let dummy_view = state.for_player(PlayerPosition::South);
    assert!(dummy_view.dummy_hand.is_none());
    let west_view = state.for_player(PlayerPosition::West);
    assert!(west_view.my_hand.is_empty());

    let mut bidding = state.clone();
    bidding.phase = GamePhaseData::Bidding(BiddingState::default());
    assert!(bidding.for_player(PlayerPosition::East).dummy_hand.is_none());
}
