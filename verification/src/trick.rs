use vstd::prelude::*;
use crate::cards::{rank_value, spec_rank_value, Card, Suit};
use crate::seats::{seat, seat_at, PlayerPosition};

verus! {

/// The refusal of a card that does not follow suit.
pub open spec fn msg_must_follow(led: Suit) -> Seq<char> {
    match led {
        Suit::Clubs => "Du musst Clubs bedienen!"@,
        Suit::Diamonds => "Du musst Diamonds bedienen!"@,
        Suit::Hearts => "Du musst Hearts bedienen!"@,
        Suit::Spades => "Du musst Spades bedienen!"@,
    }
}

/// The hand holds a card of the suit.
pub open spec fn holds_suit(hand: Seq<Card>, suit: Suit) -> bool {
    exists|i: int| 0 <= i < hand.len() && (#[trigger] hand[i]).suit == suit
}

/// A card may be played: the first card of a trick may be anything; later
/// cards must follow the suit that was led, unless the hand has none of it.
pub open spec fn play_allowed(hand: Seq<Card>, card: Card, led_suit: Option<Suit>) -> bool {
    match led_suit {
        None => true,
        Some(led) => card.suit == led || !holds_suit(hand, led),
    }
}

/// Checks that `card`, played from `hand`, follows suit.
pub fn validate_card_play(hand: &[Card], card: &Card, led_suit: Option<Suit>) -> (r: Result<
    (),
    String,
>)
    ensures
        r is Ok <==> play_allowed(hand@, *card, led_suit),
        r matches Err(e) ==> e@ == msg_must_follow(led_suit->Some_0),
{
    let led = match led_suit {
        None => {
            return Ok(());
        },
        Some(l) => l,
    };
    if card.suit == led {
        return Ok(());
    }
    let mut i: usize = 0;
    while i < hand.len()
        invariant
            i <= hand@.len(),
            led_suit == Some(led),
            card.suit != led,
            forall|j: int| 0 <= j < i ==> (#[trigger] hand@[j]).suit != led,
        decreases hand@.len() - i,
    {
        if hand[i].suit == led {
            return Err(
                match led {
                    Suit::Clubs => "Du musst Clubs bedienen!".to_string(),
                    Suit::Diamonds => "Du musst Diamonds bedienen!".to_string(),
                    Suit::Hearts => "Du musst Hearts bedienen!".to_string(),
                    Suit::Spades => "Du musst Spades bedienen!".to_string(),
                },
            );
        }
        i = i + 1;
    }
    Ok(())
}

/// Whether `challenger` takes the trick from `current_winner`: a trump beats
/// any other card, two trumps or two cards of the led suit go by rank, and a
/// card that is neither trump nor of the led suit never wins.
pub open spec fn spec_beats(challenger: Card, current_winner: Card, led_suit: Suit, trump: Option<Suit>) -> bool {
    let challenger_is_trump = Some(challenger.suit) == trump;
    let winner_is_trump = Some(current_winner.suit) == trump;
    if challenger_is_trump && winner_is_trump {
        spec_rank_value(challenger.rank) > spec_rank_value(current_winner.rank)
    } else if challenger_is_trump {
        true
    } else if winner_is_trump {
        false
    } else {
        challenger.suit == led_suit && spec_rank_value(challenger.rank) > spec_rank_value(
            current_winner.rank,
        )
    }
}

/// Whether `challenger` takes the trick from `current_winner`.
pub fn beats(challenger: &Card, current_winner: &Card, led_suit: Suit, trump: Option<Suit>) -> (r:
    bool)
    ensures
        r == spec_beats(*challenger, *current_winner, led_suit, trump),
{
    let challenger_is_trump = Some(challenger.suit) == trump;
    let winner_is_trump = Some(current_winner.suit) == trump;
    match (challenger_is_trump, winner_is_trump) {
        (true, true) => rank_value(challenger) > rank_value(current_winner),
        (true, false) => true,
        (false, true) => false,
        (false, false) => challenger.suit == led_suit && rank_value(challenger) > rank_value(
            current_winner,
        ),
    }
}

/// The card on the table at a seat.
pub open spec fn card_at(table: Seq<Option<Card>>, p: PlayerPosition) -> Card {
    table[seat(p)]->Some_0
}

/// Every seat has a card on the table.
pub open spec fn trick_complete(table: Seq<Option<Card>>) -> bool {
    &&& table.len() == 4
    &&& forall|i: int| 0 <= i < 4 ==> (#[trigger] table[i]) is Some
}

/// The winner after looking at the seats from number `k` on, clockwise from
/// North, with `w` winning so far: each later card that beats the winning
/// card takes over.
pub open spec fn winner_from(
    table: Seq<Option<Card>>,
    lead: PlayerPosition,
    trump: Option<Suit>,
    k: int,
    w: PlayerPosition,
) -> PlayerPosition
    decreases 4 - k,
{
    if k >= 4 {
        w
    } else {
        let p = seat_at(k);
        let led = card_at(table, lead).suit;
        let nw = if p != lead && spec_beats(card_at(table, p), card_at(table, w), led, trump) {
            p
        } else {
            w
        };
        winner_from(table, lead, trump, k + 1, nw)
    }
}

/// The winner of a complete trick led by `lead`.
pub open spec fn trick_winner(table: Seq<Option<Card>>, lead: PlayerPosition, trump: Option<Suit>) -> PlayerPosition {
    winner_from(table, lead, trump, 0, lead)
}

/// The order in which cards take tricks: trumps above the led suit, the led
/// suit above everything else, and by rank within each.
pub open spec fn card_strength(c: Card, led: Suit, trump: Option<Suit>) -> int {
    if Some(c.suit) == trump {
        200 + spec_rank_value(c.rank)
    } else if c.suit == led {
        100 + spec_rank_value(c.rank)
    } else {
        0
    }
}

proof fn lemma_beats_by_strength(a: Card, b: Card, led: Suit, trump: Option<Suit>)
    requires
        card_strength(b, led, trump) > 0,
    ensures
        spec_beats(a, b, led, trump) <==> card_strength(a, led, trump) > card_strength(b, led, trump),
{
}

proof fn lemma_winner_from_is_strongest(
    table: Seq<Option<Card>>,
    lead: PlayerPosition,
    trump: Option<Suit>,
    k: int,
    w: PlayerPosition,
)
    requires
        trick_complete(table),
        0 <= k <= 4,
        card_strength(card_at(table, w), card_at(table, lead).suit, trump) > 0,
        card_strength(card_at(table, lead), card_at(table, lead).suit, trump) <= card_strength(
            card_at(table, w),
            card_at(table, lead).suit,
            trump,
        ),
        forall|j: int|
            0 <= j < k ==> card_strength(card_at(table, #[trigger] seat_at(j)), card_at(table, lead).suit, trump)
                <= card_strength(card_at(table, w), card_at(table, lead).suit, trump),
    ensures
        ({
            let r = winner_from(table, lead, trump, k, w);
            let led = card_at(table, lead).suit;
            &&& card_strength(card_at(table, r), led, trump) > 0
            &&& forall|j: int|
                0 <= j < 4 ==> card_strength(card_at(table, #[trigger] seat_at(j)), led, trump)
                    <= card_strength(card_at(table, r), led, trump)
        }),
    decreases 4 - k,
{
    let led = card_at(table, lead).suit;
    if k < 4 {
        let p = seat_at(k);
        lemma_beats_by_strength(card_at(table, p), card_at(table, w), led, trump);
        let nw = if p != lead && spec_beats(card_at(table, p), card_at(table, w), led, trump) {
            p
        } else {
            w
        };
        assert(seat(p) == k);
        lemma_winner_from_is_strongest(table, lead, trump, k + 1, nw);
    }
}

/// No card of a complete trick beats the card of its winner, and the winner
/// played either a trump or the led suit.
pub proof fn lemma_trick_winner_unbeaten(table: Seq<Option<Card>>, lead: PlayerPosition, trump: Option<Suit>)
    requires
        trick_complete(table),
    ensures
        ({
            let w = trick_winner(table, lead, trump);
            let led = card_at(table, lead).suit;
            &&& Some(card_at(table, w).suit) == trump || card_at(table, w).suit == led
            &&& forall|p: PlayerPosition| !spec_beats(#[trigger] card_at(table, p), card_at(table, w), led, trump)
        }),
{
    let led = card_at(table, lead).suit;
    lemma_winner_from_is_strongest(table, lead, trump, 0, lead);
    let w = trick_winner(table, lead, trump);
    assert forall|p: PlayerPosition| !spec_beats(#[trigger] card_at(table, p), card_at(table, w), led, trump) by {
        assert(seat_at(seat(p)) == p);
        lemma_beats_by_strength(card_at(table, p), card_at(table, w), led, trump);
    }
}

/// The winner of a complete trick led by `lead`, with `trump` as trumps
/// (`None` for no trumps).
pub fn evaluate_trick(table: &Vec<Option<Card>>, lead: PlayerPosition, trump: Option<Suit>) -> (r:
    PlayerPosition)
    requires
        trick_complete(table@),
    ensures
        r == trick_winner(table@, lead, trump),
{
    let lead_card = table[lead.index()].unwrap();
    let led_suit = lead_card.suit;
    let mut winner = lead;
    let mut winning_card = lead_card;
    let mut k: usize = 0;
    while k < 4
        invariant
            trick_complete(table@),
            k <= 4,
            led_suit == card_at(table@, lead).suit,
            winning_card == card_at(table@, winner),
            trick_winner(table@, lead, trump) == winner_from(table@, lead, trump, k as int, winner),
        decreases 4 - k,
    {
        let pos = PlayerPosition::cycle(k);
        if pos != lead {
            let card = table[k].unwrap();
            if beats(&card, &winning_card, led_suit, trump) {
                winner = pos;
                winning_card = card;
            }
        }
        k = k + 1;
    }
    winner
}

} // verus!
