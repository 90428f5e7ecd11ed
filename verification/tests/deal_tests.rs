use rusty_bridge::cards::Card;
use rusty_bridge::deck::Deck;
use rusty_bridge::game::GameState;
use rusty_bridge::phases::GamePhaseData;
use rusty_bridge::seats::PlayerPosition;
use std::collections::HashSet;
use std::time::Instant;

#[test]
fn test_entropy_bottleneck() {
    for i in 0..10000 {
        let start = Instant::now();
        let deck = Deck::new();
        let _ = deck.deal();
        let duration = start.elapsed();

        if duration.as_millis() > 1 {
            panic!("Lag bei Iteration {}: {:?}", i, duration);
        }
    }
}

#[test]
fn test_deck_integrity() {
    let deck = Deck::new();
    let hands = deck.deal();

    let mut all_cards: Vec<Card> = Vec::new();
    for hand in &hands {
        all_cards.extend(hand.iter());
    }
    assert_eq!(all_cards.len(), 52, "Es müssen genau 52 Karten sein");

    let unique_cards: HashSet<&Card> = all_cards.iter().collect();
    assert_eq!(unique_cards.len(), 52, "Das Deck enthält Duplikate!");
}

#[test]
fn test_hand_size() {
    let deck = Deck::new();
    let hands = deck.deal();

    for (i, hand) in hands.iter().enumerate() {
        assert_eq!(hand.len(), 13, "Spieler {} hat nicht 13 Karten", i + 1);
    }
}

#[test]
fn new_deck_is_in_pack_order_and_distinct() {
    let deck = Deck::new();
    assert_eq!(deck.0.len(), 52);
    let first = deck.0[0];
    assert_eq!(first.suit, rusty_bridge::cards::Suit::Clubs);
    assert_eq!(first.rank, rusty_bridge::cards::Rank::Two);
    let last = deck.0[51];
    assert_eq!(last.suit, rusty_bridge::cards::Suit::Spades);
    assert_eq!(last.rank, rusty_bridge::cards::Rank::Ace);
    let set: HashSet<Card> = deck.0.iter().cloned().collect();
    assert_eq!(set.len(), 52);
}

#[test]
fn deal_of_longer_pack_uses_first_fifty_two_after_shuffle() {
    let mut cards = Deck::new().0;
    cards.extend(Deck::new().0.into_iter().take(3));
    let hands = Deck(cards).deal();
    for hand in hands.iter() {
        assert_eq!(hand.len(), 13);
    }
}

#[test]
fn fresh_game_state_deals_all_cards() {
    let state = GameState::default();
    assert_eq!(state.hands.len(), 4);
    let mut all: HashSet<Card> = HashSet::new();
    for slot in &state.hands {
        let hand = slot.as_ref().expect("every seat has a hand");
        assert_eq!(hand.len(), 13);
        all.extend(hand.iter().cloned());
    }
    assert_eq!(all.len(), 52);
    assert!(state.table.iter().all(|c| c.is_none()));
    assert_eq!(state.current_player, PlayerPosition::North);
    assert_eq!(state.pot, 0);
    match &state.phase {
        GamePhaseData::Bidding(bs) => {
            assert!(bs.history.is_empty());
            assert!(bs.highest_bid.is_none());
            assert!(!bs.bidding_finished);
        }
        _ => panic!("a fresh deal starts with the auction"),
    }
}

#[test]
fn deal_shuffles_the_pack() {
    let ordered = Deck::new().0;
    let mut differs = false;
    for _ in 0..5 {
        let hands = Deck::new().deal();
        let dealt: Vec<Card> = hands.iter().flat_map(|h| h.iter().cloned()).collect();
        if dealt != ordered {
            differs = true;
        }
        let mut sorted_dealt = dealt.clone();
        let mut sorted_pack = ordered.clone();
        let key = |c: &Card| (c.suit as u8, c.rank as u8);
        sorted_dealt.sort_by_key(key);
        sorted_pack.sort_by_key(key);
        assert_eq!(sorted_dealt, sorted_pack);
    }
    assert!(differs, "five deals in pack order");
}
