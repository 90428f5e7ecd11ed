use vstd::prelude::*;
use crate::bids::{bid_value, Bid, BiddingCommand};
use crate::cards::{Card, Suit};
use crate::game::{empty_table, GameModel, GameState};
use crate::phases::{BiddingModel, BiddingState, GamePhaseData, PhaseModel, PlayingState};
use crate::seats::{spec_next, spec_partner, PlayerPosition};

verus! {

// The answers to a refused call, as the players read them.

pub open spec fn msg_not_your_turn() -> Seq<char> {
    "Du bist nicht am Zug!"@
}

pub open spec fn msg_not_bidding() -> Seq<char> {
    "Wir sind nicht in der Reizphase!"@
}

pub open spec fn msg_auction_over() -> Seq<char> {
    "Reizen ist bereits beendet!"@
}

pub open spec fn msg_bid_too_low() -> Seq<char> {
    "Gebot muss höher sein als das aktuelle Höchstgebot."@
}

pub open spec fn msg_double_without_bid() -> Seq<char> {
    "Du kannst nur kontrieren, wenn bereits ein Gebot abgegeben wurde."@
}

pub open spec fn msg_already_doubled() -> Seq<char> {
    "Gebot ist bereits kontriert oder rekontriert."@
}

pub open spec fn msg_redouble_without_double() -> Seq<char> {
    "Du kannst nur rekontrieren, wenn vorher kontriert wurde."@
}

pub open spec fn msg_already_redoubled() -> Seq<char> {
    "Gebot ist bereits rekontriert."@
}

/// A pass: one more pass in a row; the auction ends after four passes when
/// nobody has bid, and after three passes following a bid.
pub open spec fn pass_step(bs: BiddingModel) -> BiddingModel {
    let passes = (bs.consecutive_passes + 1) as u8;
    let required: int = if bs.highest_bid is None { 4 } else { 3 };
    BiddingModel {
        consecutive_passes: passes,
        bidding_finished: bs.bidding_finished || passes >= required,
        ..bs
    }
}

/// A bid: refused unless it outranks the highest bid so far; otherwise it
/// becomes the highest bid, made by `player`, and clears the passes and any
/// double or redouble.
pub open spec fn make_bid_step(bs: BiddingModel, player: PlayerPosition, bid: Bid) -> Result<
    BiddingModel,
    Seq<char>,
> {
    if bs.highest_bid matches Some(h) && !(bid_value(bid) > bid_value(h)) {
        Err(msg_bid_too_low())
    } else {
        Ok(
            BiddingModel {
                highest_bid: Some(bid),
                highest_bidder: Some(player),
                consecutive_passes: 0,
                is_doubled: false,
                is_redoubled: false,
                ..bs
            },
        )
    }
}

/// A double: only of a bid that is neither doubled nor redoubled.
pub open spec fn double_step(bs: BiddingModel) -> Result<BiddingModel, Seq<char>> {
    if bs.highest_bid is None {
        Err(msg_double_without_bid())
    } else if bs.is_doubled || bs.is_redoubled {
        Err(msg_already_doubled())
    } else {
        Ok(BiddingModel { is_doubled: true, consecutive_passes: 0, ..bs })
    }
}

/// A redouble: only of a doubled bid that is not yet redoubled.
pub open spec fn redouble_step(bs: BiddingModel) -> Result<BiddingModel, Seq<char>> {
    if !bs.is_doubled {
        Err(msg_redouble_without_double())
    } else if bs.is_redoubled {
        Err(msg_already_redoubled())
    } else {
        Ok(BiddingModel { is_redoubled: true, consecutive_passes: 0, ..bs })
    }
}

/// The effect of a call on the auction, before it is written into the history.
pub open spec fn command_step(bs: BiddingModel, player: PlayerPosition, cmd: BiddingCommand) -> Result<
    BiddingModel,
    Seq<char>,
> {
    match cmd {
        BiddingCommand::Pass => Ok(pass_step(bs)),
        BiddingCommand::MakeBid { bid } => make_bid_step(bs, player, bid),
        BiddingCommand::Double => double_step(bs),
        BiddingCommand::Redouble => redouble_step(bs),
    }
}

/// The effect of a call on the auction, written into the history.
pub open spec fn auction_step(bs: BiddingModel, player: PlayerPosition, cmd: BiddingCommand) -> Result<
    BiddingModel,
    Seq<char>,
> {
    match command_step(bs, player, cmd) {
        Ok(nb) => Ok(BiddingModel { history: nb.history.push((player, cmd)), ..nb }),
        Err(e) => Err(e),
    }
}

/// A call by `player` at the table: refused when it is not the player's
/// turn, when the deal is not in the auction, when the auction is over, or
/// when the call itself is not allowed. Otherwise the auction takes the call,
/// and the turn passes to the left unless the call ended the auction.
pub open spec fn bid_at_table(m: GameModel, player: PlayerPosition, cmd: BiddingCommand) -> Result<
    GameModel,
    Seq<char>,
> {
    if m.current_player != player {
        Err(msg_not_your_turn())
    } else {
        match m.phase {
            PhaseModel::Bidding(bs) => {
                if bs.bidding_finished {
                    Err(msg_auction_over())
                } else {
                    match auction_step(bs, player, cmd) {
                        Ok(nb) => Ok(
                            GameModel {
                                phase: PhaseModel::Bidding(nb),
                                current_player: if nb.bidding_finished {
                                    m.current_player
                                } else {
                                    spec_next(m.current_player)
                                },
                                ..m
                            },
                        ),
                        Err(e) => Err(e),
                    }
                }
            },
            _ => Err(msg_not_bidding()),
        }
    }
}

/// The call reaches the pass counter only where the counter can still count.
pub open spec fn bid_fits(m: GameModel, player: PlayerPosition, cmd: BiddingCommand) -> bool {
    match m.phase {
        PhaseModel::Bidding(bs) => (m.current_player == player && !bs.bidding_finished
            && cmd is Pass) ==> bs.consecutive_passes < 255,
        _ => true,
    }}

fn handle_pass(state: &mut BiddingState) -> (r: Result<(), String>)
    requires
        old(state).consecutive_passes < 255,
    ensures
        r is Ok,
        final(state)@ == pass_step(old(state)@),
{
    state.consecutive_passes = state.consecutive_passes + 1;
    let required_passes_to_end: u8 = if state.highest_bid.is_none() { 4 } else { 3 };
    if state.consecutive_passes >= required_passes_to_end {
        state.bidding_finished = true;
    }
    Ok(())
}

fn handle_make_bid(state: &mut BiddingState, player_pos: PlayerPosition, new_bid: &Bid) -> (r: Result<
    (),
    String,
>)
    ensures
        match make_bid_step(old(state)@, player_pos, *new_bid) {
            Ok(nb) => r is Ok && final(state)@ == nb,
            Err(e) => r matches Err(s) && s@ == e && final(state)@ == old(state)@,
        },
{
    if let Some(current_highest) = &state.highest_bid {
        if !new_bid.is_higher_than(current_highest) {
            return Err("Gebot muss höher sein als das aktuelle Höchstgebot.".to_string());
        }
    }
    state.highest_bid = Some(*new_bid);
    state.highest_bidder = Some(player_pos);
    state.consecutive_passes = 0;
    state.is_doubled = false;
    state.is_redoubled = false;
    Ok(())
}

fn handle_double(state: &mut BiddingState) -> (r: Result<(), String>)
    ensures
        match double_step(old(state)@) {
            Ok(nb) => r is Ok && final(state)@ == nb,
            Err(e) => r matches Err(s) && s@ == e && final(state)@ == old(state)@,
        },
{
    if state.highest_bid.is_none() {
        return Err(
            "Du kannst nur kontrieren, wenn bereits ein Gebot abgegeben wurde.".to_string(),
        );
    }
    if state.is_doubled || state.is_redoubled {
        return Err("Gebot ist bereits kontriert oder rekontriert.".to_string());
    }
    state.is_doubled = true;
    state.consecutive_passes = 0;
    Ok(())
}

fn handle_redouble(state: &mut BiddingState) -> (r: Result<(), String>)
    ensures
        match redouble_step(old(state)@) {
            Ok(nb) => r is Ok && final(state)@ == nb,
            Err(e) => r matches Err(s) && s@ == e && final(state)@ == old(state)@,
        },
{
    if !state.is_doubled {
        return Err("Du kannst nur rekontrieren, wenn vorher kontriert wurde.".to_string());
    }
    if state.is_redoubled {
        return Err("Gebot ist bereits rekontriert.".to_string());
    }
    state.is_redoubled = true;
    state.consecutive_passes = 0;
    Ok(())
}

/// Takes a call from `player`; see [`bid_at_table`]. A refused call leaves
/// the deal as it was.
pub fn process_bid(state: &mut GameState, player_pos: PlayerPosition, cmd: BiddingCommand) -> (r:
    Result<(), String>)
    requires
        bid_fits(old(state)@, player_pos, cmd),
    ensures
        match bid_at_table(old(state)@, player_pos, cmd) {
            Ok(m) => r is Ok && final(state)@ == m,
            Err(e) => r matches Err(s) && s@ == e && final(state)@ == old(state)@,
        },
{
    if state.current_player != player_pos {
        return Err("Du bist nicht am Zug!".to_string());
    }
    let ghost old_state = state@;
    let current = state.current_player;
    let bidding_state = match &mut state.phase {
        GamePhaseData::Bidding(bs) => bs,
        _ => return Err("Wir sind nicht in der Reizphase!".to_string()),
    };
    if bidding_state.bidding_finished {
        return Err("Reizen ist bereits beendet!".to_string());
    }
    let res = match cmd {
        BiddingCommand::Pass => handle_pass(bidding_state),
        BiddingCommand::MakeBid { bid } => handle_make_bid(bidding_state, player_pos, &bid),
        BiddingCommand::Double => handle_double(bidding_state),
        BiddingCommand::Redouble => handle_redouble(bidding_state),
    };
    match res {
        Err(e) => {
            return Err(e);
        },
        Ok(()) => {},
    }
    bidding_state.history.push((player_pos, cmd));
    let finished = bidding_state.bidding_finished;
    if !finished {
        state.current_player = current.next();
    }
    Ok(())
}

/// The auction is consistent: when a bid stands, its bidder is known and the
/// bidder's partnership is on record as having named its denomination, so
/// that a declarer can be found.
pub open spec fn auction_consistent(bs: BiddingModel) -> bool {
    bs.highest_bid matches Some(b) ==> (bs.highest_bidder matches Some(p) && exists|i: int|
        0 <= i < bs.history.len() && names_denomination(#[trigger] bs.history[i], b.suit, p))
}

/// A deal whose auction, if it is in one, is consistent.
pub open spec fn deal_consistent(m: GameModel) -> bool {
    m.phase matches PhaseModel::Bidding(bs) ==> auction_consistent(bs)
}

/// An entry of the history in which a player of the partnership of `bidder`
/// bid the denomination `suit`.
pub open spec fn names_denomination(
    entry: (PlayerPosition, BiddingCommand),
    suit: Option<Suit>,
    bidder: PlayerPosition,
) -> bool {
    &&& entry.1 matches BiddingCommand::MakeBid { bid } && bid.suit == suit
    &&& entry.0 == bidder || entry.0 == spec_partner(bidder)
}

/// The first entry of the history in which the winning partnership named
/// the denomination of the contract.
pub open spec fn is_first_naming(bs: BiddingModel, i: int) -> bool {
    &&& 0 <= i < bs.history.len()
    &&& names_denomination(bs.history[i], bs.highest_bid->Some_0.suit, bs.highest_bidder->Some_0)
    &&& forall|j: int|
        0 <= j < i ==> !names_denomination(
            #[trigger] bs.history[j],
            bs.highest_bid->Some_0.suit,
            bs.highest_bidder->Some_0,
        )
}

/// The declarer: the player of the winning partnership who first named the
/// denomination of the contract.
pub open spec fn declarer_of(bs: BiddingModel) -> PlayerPosition {
    bs.history[choose|i: int| is_first_naming(bs, i)].0
}

/// The end of the auction. With a contract, the play begins: the declarer
/// is found, the partner is dummy, the player to the declarer's left leads
/// and the table is empty. When everyone passed, the deal is over without a
/// winner.
pub open spec fn finish_auction(m: GameModel) -> GameModel {
    match m.phase {
        PhaseModel::Bidding(bs) => match bs.highest_bid {
            Some(b) => {
                let d = declarer_of(bs);
                GameModel {
                    phase: PhaseModel::Playing(
                        PlayingState {
                            contract: b,
                            is_doubled: bs.is_doubled,
                            is_redoubled: bs.is_redoubled,
                            declarer: d,
                            dummy: spec_partner(d),
                            tricks_won_ns: 0,
                            tricks_won_ew: 0,
                            trick_lead: spec_next(d),
                        },
                    ),
                    current_player: spec_next(d),
                    table: empty_table(),
                    ..m
                }
            },
            None => GameModel { phase: PhaseModel::Finished { winner_team: None, score: 0 }, ..m },
        },
        _ => m,
    }
}

proof fn lemma_first_naming_unique(bs: BiddingModel, i: int, k: int)
    requires
        is_first_naming(bs, i),
        is_first_naming(bs, k),
    ensures
        i == k,
{
    if i < k {
        assert(!names_denomination(bs.history[i], bs.highest_bid->Some_0.suit, bs.highest_bidder->Some_0));
    } else if k < i {
        assert(!names_denomination(bs.history[k], bs.highest_bid->Some_0.suit, bs.highest_bidder->Some_0));
    }
}

fn determine_declarer(state: &BiddingState) -> (r: PlayerPosition)
    requires
        state.highest_bid is Some,
        auction_consistent(state@),
    ensures
        r == declarer_of(state@),
{
    let final_bid = state.highest_bid.unwrap();
    let winning_team = state.highest_bidder.unwrap();
    let partner = winning_team.next().next();
    let ghost bs = state@;
    let ghost witness = choose|i: int|
        0 <= i < bs.history.len() && names_denomination(
            #[trigger] bs.history[i],
            final_bid.suit,
            winning_team,
        );
    let mut i: usize = 0;
    while i < state.history.len()
        invariant
            bs == state@,
            bs.highest_bid == Some(final_bid),
            bs.highest_bidder == Some(winning_team),
            partner == spec_partner(winning_team),
            0 <= witness < bs.history.len(),
            names_denomination(bs.history[witness], final_bid.suit, winning_team),
            i <= witness,
            forall|j: int|
                0 <= j < i ==> !names_denomination(
                    #[trigger] bs.history[j],
                    final_bid.suit,
                    winning_team,
                ),
        decreases state.history.len() - i,
    {
        let (pos, cmd) = state.history[i];
        if let BiddingCommand::MakeBid { bid } = cmd {
            if bid.suit == final_bid.suit && (pos == winning_team || pos == partner) {
                proof {
                    assert(is_first_naming(bs, i as int));
                    lemma_first_naming_unique(bs, i as int, choose|k: int| is_first_naming(bs, k));
                }
                return pos;
            }
        }
        i = i + 1;
    }
    proof {
        assert(false);
    }
    winning_team
}

/// Ends the auction; see [`finish_auction`].
pub fn finalize_bidding(state: &mut GameState)
    requires
        old(state)@.phase is Bidding,
        deal_consistent(old(state)@),
    ensures
        final(state)@ == finish_auction(old(state)@),
{
    let mut phase = GamePhaseData::Finished { winner_team: None, score: 0 };
    std::mem::swap(&mut phase, &mut state.phase);
    let bidding_state = match phase {
        GamePhaseData::Bidding(bs) => bs,
        _ => {
            proof {
                assert(false);
            }
            return ;
        },
    };
    if let Some(final_bid) = bidding_state.highest_bid {
        let declarer = determine_declarer(&bidding_state);
        let dummy = declarer.next().next();
        state.phase = GamePhaseData::Playing(
            PlayingState {
                contract: final_bid,
                is_doubled: bidding_state.is_doubled,
                is_redoubled: bidding_state.is_redoubled,
                declarer,
                dummy,
                tricks_won_ns: 0,
                tricks_won_ew: 0,
                trick_lead: declarer.next(),
            },
        );
        let mut table: Vec<Option<Card>> = Vec::new();
        table.push(None);
        table.push(None);
        table.push(None);
        table.push(None);
        state.table = table;
        state.current_player = declarer.next();
        proof {
            assert(state@.table =~= empty_table());
        }
    } else {
        state.phase = GamePhaseData::Finished { winner_team: None, score: 0 };
    }
}

/// An accepted call never lowers the highest bid, and a bid that is
/// accepted becomes the highest bid, held by the player who made it.
pub proof fn lemma_highest_bid_rises(m: GameModel, player: PlayerPosition, cmd: BiddingCommand)
    requires
        bid_at_table(m, player, cmd) is Ok,
    ensures
        ({
            let bs = m.phase->Bidding_0;
            let nb = bid_at_table(m, player, cmd)->Ok_0.phase->Bidding_0;
            &&& bid_at_table(m, player, cmd)->Ok_0.phase is Bidding
            &&& nb.history == bs.history.push((player, cmd))
            &&& bs.highest_bid matches Some(b) ==> (nb.highest_bid matches Some(b1) && bid_value(b1)
                >= bid_value(b))
            &&& cmd matches BiddingCommand::MakeBid { bid } ==> (nb.highest_bid == Some(bid)
                && nb.highest_bidder == Some(player) && (bs.highest_bid matches Some(b) ==> bid_value(
                bid,
            ) > bid_value(b)))
        }),
{
}

/// The auction ends with an accepted pass exactly when the passes in a row
/// reach four with no bid made, or three after a bid; no other call ends it.
pub proof fn lemma_auction_end(m: GameModel, player: PlayerPosition, cmd: BiddingCommand)
    requires
        bid_at_table(m, player, cmd) is Ok,
        bid_fits(m, player, cmd),
    ensures
        ({
            let bs = m.phase->Bidding_0;
            let nb = bid_at_table(m, player, cmd)->Ok_0.phase->Bidding_0;
            let required = if bs.highest_bid is None { 4int } else { 3int };
            nb.bidding_finished <==> (cmd is Pass && bs.consecutive_passes + 1 >= required)
        }),
{
}

/// A double or redouble that is accepted starts the count of passes afresh,
/// and leaves the auction open: it then ends only after three more passes.
pub proof fn lemma_double_restarts_passes(m: GameModel, player: PlayerPosition, cmd: BiddingCommand)
    requires
        bid_at_table(m, player, cmd) is Ok,
        cmd is Double || cmd is Redouble || cmd is MakeBid,
    ensures
        ({
            let bs = m.phase->Bidding_0;
            let m1 = bid_at_table(m, player, cmd)->Ok_0;
            let nb = m1.phase->Bidding_0;
            &&& m1.phase is Bidding
            &&& nb.consecutive_passes == 0
            &&& !nb.bidding_finished
            &&& m1.current_player == spec_next(m.current_player)
            &&& cmd is Double ==> (nb.is_doubled && !nb.is_redoubled && nb.highest_bid
                == bs.highest_bid && nb.highest_bidder == bs.highest_bidder)
            &&& cmd is Redouble ==> (nb.is_doubled && nb.is_redoubled && nb.highest_bid
                == bs.highest_bid && nb.highest_bidder == bs.highest_bidder)
        }),
{
}

/// After a bid, a double or a redouble, the next two passes keep the auction
/// open and the third ends it.
pub proof fn lemma_three_passes_after_call(
    m: GameModel,
    p0: PlayerPosition,
    cmd: BiddingCommand,
)
    requires
        bid_at_table(m, p0, cmd) is Ok,
        cmd is Double || cmd is Redouble || cmd is MakeBid,
        m.phase matches PhaseModel::Bidding(bs) && bs.highest_bid is Some || cmd is MakeBid,
    ensures
        ({
            let m1 = bid_at_table(m, p0, cmd)->Ok_0;
            let p1 = spec_next(p0);
            let m2 = bid_at_table(m1, p1, BiddingCommand::Pass)->Ok_0;
            let p2 = spec_next(p1);
            let m3 = bid_at_table(m2, p2, BiddingCommand::Pass)->Ok_0;
            let p3 = spec_next(p2);
            let m4 = bid_at_table(m3, p3, BiddingCommand::Pass)->Ok_0;
            &&& bid_at_table(m1, p1, BiddingCommand::Pass) is Ok
            &&& !m2.phase->Bidding_0.bidding_finished
            &&& bid_at_table(m2, p2, BiddingCommand::Pass) is Ok
            &&& !m3.phase->Bidding_0.bidding_finished
            &&& bid_at_table(m3, p3, BiddingCommand::Pass) is Ok
            &&& m4.phase->Bidding_0.bidding_finished
            &&& m4.phase->Bidding_0.consecutive_passes == 3
        }),
{
}

/// The play takes over the result of the auction: the highest bid becomes
/// the contract, doubled and redoubled exactly as the auction left it; with
/// no bid the deal ends without a winner and without score.
pub proof fn lemma_auction_result_carried(m: GameModel)
    requires
        m.phase is Bidding,
    ensures
        ({
            let bs = m.phase->Bidding_0;
            let f = finish_auction(m);
            &&& bs.highest_bid matches Some(b) ==> (f.phase matches PhaseModel::Playing(ps)
                && ps.contract == b && ps.is_doubled == bs.is_doubled && ps.is_redoubled
                == bs.is_redoubled && ps.tricks_won_ns == 0 && ps.tricks_won_ew == 0
                && ps.dummy == spec_partner(ps.declarer) && ps.trick_lead == spec_next(ps.declarer)
                && f.current_player == spec_next(ps.declarer))
            &&& bs.highest_bid is None ==> f.phase == PhaseModel::Finished {
                winner_team: None,
                score: 0,
            }
            &&& f.hands == m.hands
            &&& f.pot == m.pot
        }),
{
}

/// The declarer belongs to the side that made the final bid, and bid the
/// contract's denomination before anyone else of that side did; the dummy is
/// the declarer's partner.
pub proof fn lemma_declarer_named_denomination(m: GameModel)
    requires
        m.phase matches PhaseModel::Bidding(bs) && bs.highest_bid is Some && auction_consistent(bs),
    ensures
        ({
            let bs = m.phase->Bidding_0;
            let bidder = bs.highest_bidder->Some_0;
            let suit = bs.highest_bid->Some_0.suit;
            let ps = finish_auction(m).phase->Playing_0;
            &&& finish_auction(m).phase is Playing
            &&& ps.declarer == bidder || ps.declarer == spec_partner(bidder)
            &&& ps.dummy == spec_partner(ps.declarer)
            &&& exists|i: int|
                0 <= i < bs.history.len() && #[trigger] bs.history[i].0 == ps.declarer && (
                bs.history[i].1 matches BiddingCommand::MakeBid { bid } && bid.suit == suit)
                && forall|j: int|
                0 <= j < i ==> !((#[trigger] bs.history[j].0 == bidder || bs.history[j].0
                    == spec_partner(bidder)) && (bs.history[j].1 matches BiddingCommand::MakeBid {
                    bid,
                } && bid.suit == suit))
        }),
{
    let bs = m.phase->Bidding_0;
    let bidder = bs.highest_bidder->Some_0;
    let suit = bs.highest_bid->Some_0.suit;
    let w = choose|i: int|
        0 <= i < bs.history.len() && names_denomination(#[trigger] bs.history[i], suit, bidder);
    lemma_first_naming_exists(bs, w);
    let i = choose|i: int| is_first_naming(bs, i);
    assert(bs.history[i].0 == declarer_of(bs));
    assert forall|j: int|
        0 <= j < i implies !((#[trigger] bs.history[j].0 == bidder || bs.history[j].0 == spec_partner(
        bidder,
    )) && (bs.history[j].1 matches BiddingCommand::MakeBid { bid } && bid.suit == suit)) by {
        assert(!names_denomination(bs.history[j], suit, bidder));
    }
}

proof fn lemma_first_naming_exists(bs: BiddingModel, w: int)
    requires
        bs.highest_bid is Some,
        bs.highest_bidder is Some,
        0 <= w < bs.history.len(),
        names_denomination(bs.history[w], bs.highest_bid->Some_0.suit, bs.highest_bidder->Some_0),
    ensures
        exists|i: int| is_first_naming(bs, i),
    decreases w,
{
    let suit = bs.highest_bid->Some_0.suit;
    let bidder = bs.highest_bidder->Some_0;
    if forall|j: int| 0 <= j < w ==> !names_denomination(#[trigger] bs.history[j], suit, bidder) {
        assert(is_first_naming(bs, w));
    } else {
        let j = choose|j: int| 0 <= j < w && names_denomination(#[trigger] bs.history[j], suit, bidder);
        lemma_first_naming_exists(bs, j);
    }
}

/// An accepted pass adds one to the passes in a row and keeps the bid, the
/// bidder and any double or redouble.
pub proof fn lemma_pass_counts(m: GameModel, player: PlayerPosition)
    requires
        bid_at_table(m, player, BiddingCommand::Pass) is Ok,
        bid_fits(m, player, BiddingCommand::Pass),
    ensures
        ({
            let bs = m.phase->Bidding_0;
            let nb = bid_at_table(m, player, BiddingCommand::Pass)->Ok_0.phase->Bidding_0;
            &&& nb.consecutive_passes == bs.consecutive_passes + 1
            &&& nb.highest_bid == bs.highest_bid
            &&& nb.highest_bidder == bs.highest_bidder
            &&& nb.is_doubled == bs.is_doubled
            &&& nb.is_redoubled == bs.is_redoubled
        }),
{
}

} // verus!
