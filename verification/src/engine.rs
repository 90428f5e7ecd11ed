use vstd::prelude::*;
use crate::auction::{
    auction_consistent, bid_at_table, names_denomination, bid_fits, deal_consistent, finalize_bidding, finish_auction,
    process_bid,
};
use crate::bids::{BiddingCommand, PlayerAction, PlayingCommand};
use crate::game::{cards_held, cards_on_table, is_fresh_deal, GameModel, GameState};
use crate::phases::{GamePhaseData, PhaseModel};
use crate::game::empty_table;
use crate::play::{
    effective_seat, gather_trick, lemma_turn_after_place, place_card, play_at_table, play_fits,
    process_play_card, table_follows_turn,
};
use crate::trick::{trick_complete, trick_winner};
use crate::seats::{seat, PlayerPosition};

verus! {

/// A deal that the table can keep playing: one slot per seat, a consistent
/// auction whose pass counter has not run past the end of the auction, and
/// fewer than thirteen tricks gathered while the play goes on.
pub open spec fn deal_sound(m: GameModel) -> bool {
    &&& m.wf()
    &&& deal_consistent(m)
    &&& m.phase matches PhaseModel::Bidding(bs) ==> (!bs.bidding_finished ==> bs.consecutive_passes < 4)
    &&& m.phase matches PhaseModel::Playing(ps) ==> ps.tricks_won_ns + ps.tricks_won_ew < 13
    &&& m.phase matches PhaseModel::Playing(ps) ==> table_follows_turn(m.table, ps.trick_lead, m.current_player)
}

/// An action at the table: a card goes to the play; a call goes to the
/// auction, and a call that ends the auction also starts the play (or ends
/// the deal when everyone passed).
pub open spec fn action_at_table(m: GameModel, player: PlayerPosition, action: PlayerAction) -> Result<GameModel, Seq<char>> {
    match action {
        PlayerAction::Playing(PlayingCommand::PlayCard { card }) => play_at_table(m, player, card),
        PlayerAction::Bidding(cmd) => match bid_at_table(m, player, cmd) {
            Ok(m1) => Ok(
                if m1.phase matches PhaseModel::Bidding(bs) && bs.bidding_finished {
                    finish_auction(m1)
                } else {
                    m1
                },
            ),
            Err(e) => Err(e),
        },
    }
}

/// The table can take `action` from `player` without running out of room
/// in a counter, and a call that ends the auction leaves a declarer to be
/// found.
pub open spec fn action_fits(m: GameModel, player: PlayerPosition, action: PlayerAction) -> bool {
    match action {
        PlayerAction::Playing(_) => play_fits(m, player),
        PlayerAction::Bidding(cmd) => bid_fits(m, player, cmd) && (bid_at_table(m, player, cmd) matches Ok(m1)
            ==> (m1.phase matches PhaseModel::Bidding(bs) ==> (bs.bidding_finished ==> auction_consistent(bs)))),
    }
}

/// A sound deal can take every action.
pub proof fn lemma_sound_deal_fits(m: GameModel, player: PlayerPosition, action: PlayerAction)
    requires
        deal_sound(m),
    ensures
        action_fits(m, player, action),
{
    if let PlayerAction::Bidding(cmd) = action {
        if bid_at_table(m, player, cmd) is Ok {
            lemma_bid_keeps_consistent(m, player, cmd);
        }
    }
}

/// Every accepted call keeps the auction consistent.
pub proof fn lemma_bid_keeps_consistent(m: GameModel, player: PlayerPosition, cmd: BiddingCommand)
    requires
        deal_consistent(m),
        bid_at_table(m, player, cmd) is Ok,
    ensures
        deal_consistent(bid_at_table(m, player, cmd)->Ok_0),
{
    let m1 = bid_at_table(m, player, cmd)->Ok_0;
    let bs = m.phase->Bidding_0;
    let nb = m1.phase->Bidding_0;
    assert(nb.history == bs.history.push((player, cmd)));
    if let BiddingCommand::MakeBid { bid } = cmd {
        let last = nb.history.len() - 1;
        assert(nb.history[last] == (player, BiddingCommand::MakeBid { bid }));
        assert(names_denomination(nb.history[last], bid.suit, player));
    } else if let Some(b) = bs.highest_bid {
        let p = bs.highest_bidder->Some_0;
        let i = choose|i: int|
            0 <= i < bs.history.len() && names_denomination(#[trigger] bs.history[i], b.suit, p);
        assert(nb.history[i] == bs.history[i]);
    }
}

/// Every accepted call keeps the deal sound.
pub proof fn lemma_bid_keeps_sound(m: GameModel, player: PlayerPosition, cmd: BiddingCommand)
    requires
        deal_sound(m),
        bid_at_table(m, player, cmd) is Ok,
    ensures
        deal_sound(bid_at_table(m, player, cmd)->Ok_0),
{
    lemma_bid_keeps_consistent(m, player, cmd);
}

/// Ending a consistent auction leaves a sound deal.
pub proof fn lemma_finish_auction_sound(m: GameModel)
    requires
        m.wf(),
        m.phase is Bidding,
    ensures
        deal_sound(finish_auction(m)),
{
}

/// An accepted card is played by the seat to act, from a hand that holds
/// it; the deal then shows the card placed, and the trick gathered if it is
/// complete.
pub proof fn lemma_play_result(m: GameModel, player: PlayerPosition, card: crate::cards::Card)
    requires
        play_at_table(m, player, card) is Ok,
    ensures
        m.phase is Playing,
        effective_seat(m.phase->Playing_0, m.current_player, player) == m.current_player,
        m.hands[seat(m.current_player)] is Some,
        m.hands[seat(m.current_player)]->Some_0.contains(card),
        play_at_table(m, player, card)->Ok_0 == if trick_complete(
            place_card(m, m.current_player, card).table,
        ) {
            gather_trick(place_card(m, m.current_player, card))
        } else {
            place_card(m, m.current_player, card)
        },
{
}

proof fn lemma_placed_sound(m: GameModel, card: crate::cards::Card)
    requires
        deal_sound(m),
        m.phase is Playing,
        m.hands[seat(m.current_player)] is Some,
        !trick_complete(place_card(m, m.current_player, card).table),
    ensures
        deal_sound(place_card(m, m.current_player, card)),
{
    let ps = m.phase->Playing_0;
    lemma_turn_after_place(m.table, ps.trick_lead, m.current_player, card);
}

proof fn lemma_gathered_sound(m: GameModel, card: crate::cards::Card)
    requires
        deal_sound(m),
        m.phase is Playing,
        m.hands[seat(m.current_player)] is Some,
        trick_complete(place_card(m, m.current_player, card).table),
    ensures
        deal_sound(gather_trick(place_card(m, m.current_player, card))),
{
    let m1 = place_card(m, m.current_player, card);
    let ps = m.phase->Playing_0;
    let w = trick_winner(m1.table, ps.trick_lead, ps.contract.suit);
    let g = gather_trick(m1);
    assert(g.hands.len() == 4);
    assert(g.phase is Playing ==> g.table == empty_table() && g.current_player == w
        && g.phase->Playing_0.trick_lead == w);
}

/// Every accepted card keeps the deal sound.
pub proof fn lemma_play_keeps_sound(m: GameModel, player: PlayerPosition, card: crate::cards::Card)
    requires
        deal_sound(m),
        play_at_table(m, player, card) is Ok,
    ensures
        deal_sound(play_at_table(m, player, card)->Ok_0),
{
    lemma_play_result(m, player, card);
    if trick_complete(place_card(m, m.current_player, card).table) {
        lemma_gathered_sound(m, card);
    } else {
        lemma_placed_sound(m, card);
    }
}

/// A fresh deal is sound.
pub proof fn lemma_fresh_deal_sound(m: GameModel)
    requires
        is_fresh_deal(m),
    ensures
        deal_sound(m),
{
}

/// Applies one action from `player`; see [`action_at_table`]. A refused
/// action leaves the deal as it was; a sound deal stays sound.
pub fn apply_action(state: &mut GameState, player: PlayerPosition, action: PlayerAction) -> (r:
    Result<(), String>)
    requires
        old(state)@.wf(),
        action_fits(old(state)@, player, action),
    ensures
        match action_at_table(old(state)@, player, action) {
            Ok(m) => r is Ok && final(state)@ == m,
            Err(e) => r matches Err(s) && s@ == e && final(state)@ == old(state)@,
        },
        deal_sound(old(state)@) ==> deal_sound(final(state)@),
{
    let ghost m = state@;
    match action {
        PlayerAction::Playing(PlayingCommand::PlayCard { card }) => {
            let r = process_play_card(state, player, card);
            proof {
                if r is Ok && deal_sound(m) {
                    lemma_play_keeps_sound(m, player, card);
                }
            }
            r
        },
        PlayerAction::Bidding(bid_cmd) => {
            let res = process_bid(state, player, bid_cmd);
            if res.is_ok() {
                proof {
                    if deal_sound(m) {
                        lemma_bid_keeps_sound(m, player, bid_cmd);
                    }
                }
                let finished = match &state.phase {
                    GamePhaseData::Bidding(bs) => bs.bidding_finished,
                    _ => false,
                };
                if finished {
                    finalize_bidding(state);
                    proof {
                        lemma_finish_auction_sound(bid_at_table(m, player, bid_cmd)->Ok_0);
                    }
                }
            }
            res
        },
    }
}
/// Within the play of a sound deal, an accepted card keeps the count of
/// cards in the hands, plus the cards on the table, plus four for every
/// trick gathered, as it was.
pub proof fn lemma_play_conserves_cards(m: GameModel, player: PlayerPosition, card: crate::cards::Card)
    requires
        deal_sound(m),
        play_at_table(m, player, card) is Ok,
        play_at_table(m, player, card)->Ok_0.phase is Playing,
    ensures
        ({
            let m1 = play_at_table(m, player, card)->Ok_0;
            let ps = m.phase->Playing_0;
            let ps1 = m1.phase->Playing_0;
            cards_held(m1) + cards_on_table(m1.table) + 4 * (ps1.tricks_won_ns + ps1.tricks_won_ew)
                == cards_held(m) + cards_on_table(m.table) + 4 * (ps.tricks_won_ns + ps.tricks_won_ew)
        }),
{
    let ps = m.phase->Playing_0;
    let cur = m.current_player;
    assert(effective_seat(ps, cur, player) == cur);
    crate::play::lemma_play_takes_card_from_hand(m, player, card);
    lemma_turn_after_place(m.table, ps.trick_lead, cur, card);
    let m1 = place_card(m, cur, card);
    let hand = m.hands[seat(cur)]->Some_0;
    let i = choose|i: int| crate::play::is_first_copy(hand, card, i);
    crate::play::lemma_first_copy_exists(hand, card);
    assert(m1.hand_of(cur).len() == m.hand_of(cur).len() - 1);
    assert(cards_held(m1) == cards_held(m) - 1) by {
        assert forall|p: PlayerPosition| p != cur implies #[trigger] m1.hand_of(p) == m.hand_of(p) by {
            assert(seat(p) != seat(cur));
        }
    }
    assert(cards_on_table(m1.table) == cards_on_table(m.table) + 1) by {
        assert(m1.table[seat(cur)] is Some);
    }
    if trick_complete(m1.table) {
        assert(cards_on_table(m1.table) == 4);
        assert(cards_on_table(empty_table()) == 0);
    }
}

/// Calls never change the hands or the pot.
pub proof fn lemma_calls_keep_hands(m: GameModel, player: PlayerPosition, cmd: BiddingCommand)
    requires
        bid_at_table(m, player, cmd) is Ok,
    ensures
        bid_at_table(m, player, cmd)->Ok_0.hands == m.hands,
        bid_at_table(m, player, cmd)->Ok_0.pot == m.pot,
        finish_auction(bid_at_table(m, player, cmd)->Ok_0).hands == m.hands,
        finish_auction(bid_at_table(m, player, cmd)->Ok_0).pot == m.pot,
{
}

} // verus!
