use vstd::prelude::*;
use crate::auction::msg_not_your_turn;
use crate::cards::{Card, Suit};
use crate::game::{cards_on_table, empty_table, GameModel, GameState};
use crate::phases::{GamePhaseData, PhaseModel, PlayingState};
use crate::scoring::{bridge_score, calculate_bridge_score};
use crate::seats::{seat, seat_at, spec_next, team_of, PlayerPosition, Team};
use crate::trick::{
    evaluate_trick, msg_must_follow, play_allowed, trick_complete, trick_winner, validate_card_play,
};

verus! {

// The answers to a refused card, as the players read them.

pub open spec fn msg_not_playing() -> Seq<char> {
    "Nicht in der Spielphase!"@
}

pub open spec fn msg_no_hand() -> Seq<char> {
    "Spieler hat keine Hand"@
}

pub open spec fn msg_card_not_held() -> Seq<char> {
    "Karte nicht auf der Hand!"@
}

/// The seat whose card is played: the declarer plays from the dummy's hand
/// when it is the dummy's turn; everyone else plays for their own seat.
pub open spec fn effective_seat(ps: PlayingState, current: PlayerPosition, player: PlayerPosition) -> PlayerPosition {
    if player == ps.declarer && current == ps.dummy {
        ps.dummy
    } else {
        player
    }
}

/// No card lies on the table.
pub open spec fn table_empty(table: Seq<Option<Card>>) -> bool {
    forall|i: int| 0 <= i < table.len() ==> (#[trigger] table[i]) is None
}

/// The suit led to the current trick: none while the table is empty, else
/// the suit of the card of the player who led.
pub open spec fn led_suit_of(table: Seq<Option<Card>>, ps: PlayingState) -> Option<Suit> {
    if table_empty(table) {
        None
    } else {
        match table[seat(ps.trick_lead)] {
            Some(c) => Some(c.suit),
            None => None,
        }
    }
}

/// Position `i` holds the first copy of `card` in `hand`.
pub open spec fn is_first_copy(hand: Seq<Card>, card: Card, i: int) -> bool {
    &&& 0 <= i < hand.len()
    &&& hand[i] == card
    &&& forall|j: int| 0 <= j < i ==> #[trigger] hand[j] != card
}

/// The hand without the first copy of `card`.
pub open spec fn without_card(hand: Seq<Card>, card: Card) -> Seq<Card> {
    hand.remove(choose|i: int| is_first_copy(hand, card, i))
}

/// How many seats, counting clockwise, lie from `from` up to `to`.
pub open spec fn seats_between(from: PlayerPosition, to: PlayerPosition) -> int {
    (seat(to) - seat(from) + 4) % 4
}

/// The table holds exactly the cards of the seats from the leader of the
/// trick up to, not including, the seat to act.
pub open spec fn table_follows_turn(table: Seq<Option<Card>>, lead: PlayerPosition, current: PlayerPosition) -> bool {
    &&& table.len() == 4
    &&& forall|i: int|
        0 <= i < 4 ==> ((#[trigger] table[i]) is Some <==> seats_between(lead, seat_at(i))
            < seats_between(lead, current))
}

/// The tricks taken by the declaring side.
pub open spec fn declarer_tricks(ps: PlayingState) -> int {
    match team_of(ps.declarer) {
        Team::NordSouth => ps.tricks_won_ns as int,
        Team::EastWest => ps.tricks_won_ew as int,
    }
}

/// The partnership that did not declare.
pub open spec fn other_team(t: Team) -> Team {
    match t {
        Team::NordSouth => Team::EastWest,
        Team::EastWest => Team::NordSouth,
    }
}

/// The end of the play: the contract is scored (not vulnerable); a positive
/// score goes to the declaring side, otherwise its negation to the defenders.
pub open spec fn finish_play(m: GameModel) -> GameModel {
    match m.phase {
        PhaseModel::Playing(ps) => {
            let delta = bridge_score(
                ps.contract,
                ps.is_doubled,
                ps.is_redoubled,
                declarer_tricks(ps),
                false,
            );
            if delta > 0 {
                GameModel {
                    phase: PhaseModel::Finished {
                        winner_team: Some(team_of(ps.declarer)),
                        score: delta as i32,
                    },
                    ..m
                }
            } else {
                GameModel {
                    phase: PhaseModel::Finished {
                        winner_team: Some(other_team(team_of(ps.declarer))),
                        score: (-delta) as i32,
                    },
                    ..m
                }
            }
        },
        _ => m,
    }
}

/// A complete trick is gathered: its winner's side scores it, the table is
/// cleared, and the winner leads next; after the thirteenth trick the play
/// ends.
pub open spec fn gather_trick(m: GameModel) -> GameModel {
    match m.phase {
        PhaseModel::Playing(ps) => {
            let w = trick_winner(m.table, ps.trick_lead, ps.contract.suit);
            let ps1 = match team_of(w) {
                Team::NordSouth => PlayingState {
                    tricks_won_ns: (ps.tricks_won_ns + 1) as u8,
                    trick_lead: w,
                    ..ps
                },
                Team::EastWest => PlayingState {
                    tricks_won_ew: (ps.tricks_won_ew + 1) as u8,
                    trick_lead: w,
                    ..ps
                },
            };
            let m2 = GameModel {
                table: empty_table(),
                current_player: w,
                phase: PhaseModel::Playing(ps1),
                ..m
            };
            if ps1.tricks_won_ns + ps1.tricks_won_ew == 13 {
                finish_play(m2)
            } else {
                m2
            }
        },
        _ => m,
    }
}

/// The card leaves the first place it has in the hand at `eff` and lies on
/// the table at that seat; the turn passes to the left.
pub open spec fn place_card(m: GameModel, eff: PlayerPosition, card: Card) -> GameModel {
    GameModel {
        hands: m.hands.update(seat(eff), Some(without_card(m.hands[seat(eff)]->Some_0, card))),
        table: m.table.update(seat(eff), Some(card)),
        current_player: spec_next(m.current_player),
        ..m
    }
}

/// A card played by `player`: refused outside the play, out of turn, from a
/// missing hand, when it does not follow suit, or when the hand does not hold
/// it (in this order). Otherwise the first copy leaves the hand, the card
/// lies on the table at the seat that played it, the turn passes to the
/// left, and a completed trick is gathered.
pub open spec fn play_at_table(m: GameModel, player: PlayerPosition, card: Card) -> Result<GameModel, Seq<char>> {
    match m.phase {
        PhaseModel::Playing(ps) => {
            let eff = effective_seat(ps, m.current_player, player);
            if m.current_player != eff {
                Err(msg_not_your_turn())
            } else {
                match m.hands[seat(eff)] {
                    None => Err(msg_no_hand()),
                    Some(hand) => {
                        let led = led_suit_of(m.table, ps);
                        if !play_allowed(hand, card, led) {
                            Err(msg_must_follow(led->Some_0))
                        } else if !hand.contains(card) {
                            Err(msg_card_not_held())
                        } else {
                            let m1 = place_card(m, eff, card);
                            if trick_complete(m1.table) {
                                Ok(gather_trick(m1))
                            } else {
                                Ok(m1)
                            }
                        }
                    },
                }
            }
        },
        _ => Err(msg_not_playing()),
    }
}

/// A play that completes a trick finds room in the trick counters.
pub open spec fn play_fits(m: GameModel, player: PlayerPosition) -> bool {
    match m.phase {
        PhaseModel::Playing(ps) => {
            let eff = effective_seat(ps, m.current_player, player);
            (forall|i: int| 0 <= i < 4 && i != seat(eff) ==> (#[trigger] m.table[i]) is Some)
                ==> ps.tricks_won_ns + ps.tricks_won_ew < 255
        },
        _ => true,
    }
}

fn finalize_game(state: &mut GameState)
    requires
        old(state)@.phase is Playing,
    ensures
        final(state)@ == finish_play(old(state)@),
{
    let ps = match &state.phase {
        GamePhaseData::Playing(ps) => *ps,
        _ => {
            return ;
        },
    };
    let declarer = ps.declarer;
    let tricks = match declarer {
        PlayerPosition::North | PlayerPosition::South => ps.tricks_won_ns,
        PlayerPosition::East | PlayerPosition::West => ps.tricks_won_ew,
    };
    let is_vulnerable = false;
    let score_delta = calculate_bridge_score(
        &ps.contract,
        ps.is_doubled,
        ps.is_redoubled,
        tricks,
        is_vulnerable,
    );
    let (winner_team, final_score) = if score_delta > 0 {
        let team = match declarer {
            PlayerPosition::North | PlayerPosition::South => Team::NordSouth,
            PlayerPosition::East | PlayerPosition::West => Team::EastWest,
        };
        (Some(team), score_delta)
    } else {
        let team = match declarer {
            PlayerPosition::North | PlayerPosition::South => Team::EastWest,
            PlayerPosition::East | PlayerPosition::West => Team::NordSouth,
        };
        (Some(team), -score_delta)
    };
    state.phase = GamePhaseData::Finished { winner_team, score: final_score };
}

fn resolve_trick(state: &mut GameState)
    requires
        old(state)@.wf(),
        old(state)@.phase matches PhaseModel::Playing(ps) && ps.tricks_won_ns + ps.tricks_won_ew
            < 255,
        trick_complete(old(state)@.table),
    ensures
        final(state)@ == gather_trick(old(state)@),
{
    let ps = match &state.phase {
        GamePhaseData::Playing(ps) => *ps,
        _ => {
            return ;
        },
    };
    let trump = ps.contract.suit;
    let winner = evaluate_trick(&state.table, ps.trick_lead, trump);
    let mut ps1 = ps;
    match winner {
        PlayerPosition::North | PlayerPosition::South => {
            ps1.tricks_won_ns = ps1.tricks_won_ns + 1;
        },
        PlayerPosition::East | PlayerPosition::West => {
            ps1.tricks_won_ew = ps1.tricks_won_ew + 1;
        },
    }
    ps1.trick_lead = winner;
    let mut table: Vec<Option<Card>> = Vec::new();
    table.push(None);
    table.push(None);
    table.push(None);
    table.push(None);
    state.table = table;
    state.current_player = winner;
    state.phase = GamePhaseData::Playing(ps1);
    proof {
        assert(state@.table =~= empty_table());
    }
    let total = ps1.tricks_won_ns + ps1.tricks_won_ew;
    if total == 13 {
        finalize_game(state);
    }
}

fn table_is_empty(table: &Vec<Option<Card>>) -> (r: bool)
    ensures
        r == table_empty(table@),
{
    let mut i: usize = 0;
    while i < table.len()
        invariant
            i <= table@.len(),
            forall|j: int| 0 <= j < i ==> (#[trigger] table@[j]) is None,
        decreases table@.len() - i,
    {
        if table[i].is_some() {
            return false;
        }
        i = i + 1;
    }
    true
}

fn table_is_full(table: &Vec<Option<Card>>) -> (r: bool)
    requires
        table@.len() == 4,
    ensures
        r == trick_complete(table@),
{
    let mut i: usize = 0;
    while i < 4
        invariant
            i <= 4,
            table@.len() == 4,
            forall|j: int| 0 <= j < i ==> (#[trigger] table@[j]) is Some,
        decreases 4 - i,
    {
        if table[i].is_none() {
            return false;
        }
        i = i + 1;
    }
    true
}

fn first_copy(hand: &Vec<Card>, card: &Card) -> (r: Option<usize>)
    ensures
        r matches Some(i) ==> is_first_copy(hand@, *card, i as int),
        r is None <==> !hand@.contains(*card),
{
    let mut i: usize = 0;
    while i < hand.len()
        invariant
            i <= hand@.len(),
            forall|j: int| 0 <= j < i ==> #[trigger] hand@[j] != *card,
        decreases hand@.len() - i,
    {
        if hand[i] == *card {
            return Some(i);
        }
        i = i + 1;
    }
    None
}

proof fn lemma_first_copy_unique(hand: Seq<Card>, card: Card, i: int, k: int)
    requires
        is_first_copy(hand, card, i),
        is_first_copy(hand, card, k),
    ensures
        i == k,
{
    if i < k {
        assert(hand[i] != card);
    } else if k < i {
        assert(hand[k] != card);
    }
}

/// Plays `card` for `player`; see [`play_at_table`]. A refused card leaves
/// the deal as it was.
pub fn process_play_card(state: &mut GameState, player_position: PlayerPosition, card: Card) -> (r:
    Result<(), String>)
    requires
        old(state)@.wf(),
        play_fits(old(state)@, player_position),
    ensures
        match play_at_table(old(state)@, player_position, card) {
            Ok(m) => r is Ok && final(state)@ == m,
            Err(e) => r matches Err(s) && s@ == e && final(state)@ == old(state)@,
        },
{
    let ghost m = state@;
    let playing_state = match &state.phase {
        GamePhaseData::Playing(ps) => *ps,
        _ => {
            return Err("Nicht in der Spielphase!".to_string());
        },
    };
    let effective_player = if player_position == playing_state.declarer && state.current_player
        == playing_state.dummy {
        playing_state.dummy
    } else {
        player_position
    };
    if state.current_player != effective_player {
        return Err("Du bist nicht am Zug!".to_string());
    }
    let i = effective_player.index();
    let mut slot: Option<Vec<Card>> = None;
    state.hands.set_and_swap(i, &mut slot);
    let mut hand = match slot {
        Some(h) => h,
        None => {
            proof {
                assert(state@.hands =~= m.hands);
            }
            return Err("Spieler hat keine Hand".to_string());
        },
    };
    let led_suit = if table_is_empty(&state.table) {
        None
    } else {
        match state.table[playing_state.trick_lead.index()] {
            Some(c) => Some(c.suit),
            None => None,
        }
    };
    match validate_card_play(hand.as_slice(), &card, led_suit) {
        Err(e) => {
            state.hands.set(i, Some(hand));
            proof {
                assert(state@.hands =~= m.hands);
            }
            return Err(e);
        },
        Ok(()) => {},
    }
    match first_copy(&hand, &card) {
        Some(pos) => {
            proof {
                lemma_first_copy_unique(hand@, card, pos as int, choose|k: int| is_first_copy(hand@, card, k));
            }
            hand.remove(pos);
        },
        None => {
            state.hands.set(i, Some(hand));
            proof {
                assert(state@.hands =~= m.hands);
            }
            return Err("Karte nicht auf der Hand!".to_string());
        },
    }
    state.hands.set(i, Some(hand));
    state.table.set(i, Some(card));
    state.current_player = state.current_player.next();
    proof {
        assert(state@.hands =~= m.hands.update(seat(effective_player), Some(without_card(m.hands[seat(effective_player)]->Some_0, card))));
        assert(state@.table =~= m.table.update(seat(effective_player), Some(card)));
    }
    if table_is_full(&state.table) {
        proof {
            assert forall|j: int| 0 <= j < 4 && j != seat(effective_player) implies (
            #[trigger] m.table[j]) is Some by {
                assert(state@.table[j] == m.table[j]);
            }
        }
        resolve_trick(state);
    }
    Ok(())
}

pub proof fn lemma_first_copy_exists(hand: Seq<Card>, card: Card)
    requires
        hand.contains(card),
    ensures
        exists|i: int| is_first_copy(hand, card, i),
    decreases hand.len(),
{
    if hand[0] == card {
        assert(is_first_copy(hand, card, 0));
    } else {
        let k = choose|k: int| 0 <= k < hand.len() && hand[k] == card;
        assert(hand.drop_first()[k - 1] == card);
        lemma_first_copy_exists(hand.drop_first(), card);
        let i = choose|i: int| is_first_copy(hand.drop_first(), card, i);
        assert forall|j: int| 0 <= j < i + 1 implies #[trigger] hand[j] != card by {
            if j > 0 {
                assert(hand[j] == hand.drop_first()[j - 1]);
            }
        }
        assert(is_first_copy(hand, card, i + 1));
    }
}

/// An accepted card leaves the hand it was played from, one copy of it; no
/// other hand changes.
pub proof fn lemma_play_takes_card_from_hand(m: GameModel, player: PlayerPosition, card: Card)
    requires
        m.wf(),
        play_at_table(m, player, card) is Ok,
    ensures
        ({
            let m1 = play_at_table(m, player, card)->Ok_0;
            let eff = effective_seat(m.phase->Playing_0, m.current_player, player);
            &&& m.hands[seat(eff)] is Some
            &&& m.hands[seat(eff)]->Some_0.contains(card)
            &&& m1.hands[seat(eff)] is Some
            &&& m1.hands[seat(eff)]->Some_0.to_multiset() == m.hands[seat(
                eff,
            )]->Some_0.to_multiset().remove(card)
            &&& m1.hands.len() == 4
            &&& forall|i: int| 0 <= i < 4 && i != seat(eff) ==> #[trigger] m1.hands[i] == m.hands[i]
        }),
{
    let ps = m.phase->Playing_0;
    let eff = effective_seat(ps, m.current_player, player);
    let hand = m.hands[seat(eff)]->Some_0;
    lemma_first_copy_exists(hand, card);
    let i = choose|i: int| is_first_copy(hand, card, i);
    vstd::seq_lib::to_multiset_remove(hand, i);
}

/// An accepted card either joins the current trick, or completes it and the
/// trick goes to one side, or completes the thirteenth trick and ends the
/// deal.
pub proof fn lemma_play_counts_tricks(m: GameModel, player: PlayerPosition, card: Card)
    requires
        m.wf(),
        m.phase matches PhaseModel::Playing(ps) && ps.tricks_won_ns + ps.tricks_won_ew < 13,
        play_at_table(m, player, card) is Ok,
    ensures
        ({
            let ps = m.phase->Playing_0;
            let m1 = play_at_table(m, player, card)->Ok_0;
            let before = ps.tricks_won_ns + ps.tricks_won_ew;
            &&& m1.phase matches PhaseModel::Playing(ps1) ==> (ps1.tricks_won_ns
                + ps1.tricks_won_ew == before || ps1.tricks_won_ns + ps1.tricks_won_ew == before
                + 1)
            &&& m1.phase is Finished ==> before == 12
            &&& m1.phase is Playing || m1.phase is Finished
        }),
{
}

/// A finished play names the side that scored and a positive score: the
/// declaring side when the contract was made, the defenders otherwise.
pub proof fn lemma_finish_play_names_winner(m: GameModel)
    requires
        m.phase is Playing,
    ensures
        ({
            let ps = m.phase->Playing_0;
            let made = declarer_tricks(ps) >= crate::bids::level_value(ps.contract.level) + 6;
            let f = finish_play(m);
            &&& f.phase matches PhaseModel::Finished { winner_team, score } && score > 0
                && winner_team == Some(
                if made {
                    team_of(ps.declarer)
                } else {
                    other_team(team_of(ps.declarer))
                },
            )
        }),
{
    let ps = m.phase->Playing_0;
    let t = declarer_tricks(ps);
    crate::scoring::lemma_score_sign(ps.contract, ps.is_doubled, ps.is_redoubled, t, false);
    crate::scoring::lemma_score_bounds(ps.contract, ps.is_doubled, ps.is_redoubled, t, false);
}

/// With the table following the turn, the seat to act has no card on the
/// table, the table holds one card per seat already played, and the card of
/// the seat to act completes the trick exactly when three cards lie there;
/// otherwise the table goes on following the turn.
pub proof fn lemma_turn_after_place(
    table: Seq<Option<Card>>,
    lead: PlayerPosition,
    cur: PlayerPosition,
    card: Card,
)
    requires
        table_follows_turn(table, lead, cur),
    ensures
        table[seat(cur)] is None,
        cards_on_table(table) == seats_between(lead, cur),
        seats_between(lead, cur) == 3 <==> trick_complete(table.update(seat(cur), Some(card))),
        seats_between(lead, cur) < 3 ==> table_follows_turn(
            table.update(seat(cur), Some(card)),
            lead,
            spec_next(cur),
        ),
{
    let t1 = table.update(seat(cur), Some(card));
    assert(seat_at(0) == PlayerPosition::North);
    assert(seat_at(1) == PlayerPosition::East);
    assert(seat_at(2) == PlayerPosition::South);
    assert(seat_at(3) == PlayerPosition::West);
    assert(seat_at(seat(cur)) == cur);
    let b0 = table[0] is Some;
    let b1 = table[1] is Some;
    let b2 = table[2] is Some;
    let b3 = table[3] is Some;
    if seats_between(lead, cur) == 3 {
        assert(t1[0] is Some && t1[1] is Some && t1[2] is Some && t1[3] is Some);
    }
}

/// When a card completes a trick, the trick goes to the side of the seat
/// whose card wins it: North and South count for North-South, East and West
/// for East-West; the other side's count stays, and the winner leads next.
pub proof fn lemma_trick_credited_to_winner(m: GameModel, player: PlayerPosition, card: Card)
    requires
        m.wf(),
        play_at_table(m, player, card) is Ok,
        play_fits(m, player),
        trick_complete(m.table.update(seat(m.current_player), Some(card))),
        play_at_table(m, player, card)->Ok_0.phase is Playing,
    ensures
        ({
            let ps = m.phase->Playing_0;
            let table = m.table.update(seat(m.current_player), Some(card));
            let w = trick_winner(table, ps.trick_lead, ps.contract.suit);
            let m1 = play_at_table(m, player, card)->Ok_0;
            let ps1 = m1.phase->Playing_0;
            &&& (w == PlayerPosition::North || w == PlayerPosition::South) ==> (ps1.tricks_won_ns
                == ps.tricks_won_ns + 1 && ps1.tricks_won_ew == ps.tricks_won_ew)
            &&& (w == PlayerPosition::East || w == PlayerPosition::West) ==> (ps1.tricks_won_ew
                == ps.tricks_won_ew + 1 && ps1.tricks_won_ns == ps.tricks_won_ns)
            &&& ps1.trick_lead == w
            &&& m1.current_player == w
            &&& ps1.contract == ps.contract && ps1.declarer == ps.declarer && ps1.dummy == ps.dummy
        }),
{
    let ps = m.phase->Playing_0;
    assert(effective_seat(ps, m.current_player, player) == m.current_player);
    let table = m.table.update(seat(m.current_player), Some(card));
    assert(place_card(m, m.current_player, card).table == table);
    assert forall|i: int| 0 <= i < 4 && i != seat(m.current_player) implies (
    #[trigger] m.table[i]) is Some by {
        assert(table[i] == m.table[i]);
    }
    assert(ps.tricks_won_ns + ps.tricks_won_ew < 255);
    let w = trick_winner(table, ps.trick_lead, ps.contract.suit);
    assert(play_at_table(m, player, card)->Ok_0 == gather_trick(place_card(m, m.current_player, card)));
}

/// An accepted card follows the suit led whenever the hand it comes from
/// holds that suit, and it came from that hand.
pub proof fn lemma_play_follows_suit(m: GameModel, player: PlayerPosition, card: Card)
    requires
        play_at_table(m, player, card) is Ok,
    ensures
        ({
            let ps = m.phase->Playing_0;
            let hand = m.hands[seat(m.current_player)]->Some_0;
            &&& hand.contains(card)
            &&& led_suit_of(m.table, ps) matches Some(led) ==> (card.suit == led || forall|i: int|
                0 <= i < hand.len() ==> (#[trigger] hand[i]).suit != led)
        }),
{
}

} // verus!
