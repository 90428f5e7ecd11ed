use vstd::prelude::*;
use crate::cards::Card;
use crate::deck::{is_deal_of, full_deck, Deck};
use crate::phases::{
    copy_vec, empty_auction, BiddingState, GamePhaseData, PhaseModel, PublicGameState,
};
use crate::seats::{seat, seat_at, PlayerPosition};

verus! {

/// The whole state of a deal. `hands` and `table` hold one slot per seat,
/// clockwise from North: a hand that is missing is `None`, and so is a seat
/// that has no card on the table.
#[derive(Clone, Debug)]
pub struct GameState {
    pub hands: Vec<Option<Vec<Card>>>,
    pub table: Vec<Option<Card>>,
    pub current_player: PlayerPosition,
    pub pot: i32,
    pub phase: GamePhaseData,
}

/// A deal as a mathematical value.
pub struct GameModel {
    pub hands: Seq<Option<Seq<Card>>>,
    pub table: Seq<Option<Card>>,
    pub current_player: PlayerPosition,
    pub pot: i32,
    pub phase: PhaseModel,
}

/// The cards of a hand slot.
pub open spec fn hand_view(h: Option<Vec<Card>>) -> Option<Seq<Card>> {
    match h {
        Some(v) => Some(v@),
        None => None,
    }
}

impl View for GameState {
    type V = GameModel;

    open spec fn view(&self) -> GameModel {
        GameModel {
            hands: self.hands@.map_values(|h: Option<Vec<Card>>| hand_view(h)),
            table: self.table@,
            current_player: self.current_player,
            pot: self.pot,
            phase: self.phase@,
        }
    }
}

impl GameModel {
    /// There is one hand slot and one table slot per seat.
    pub open spec fn wf(self) -> bool {
        self.hands.len() == 4 && self.table.len() == 4
    }

    /// The cards held at a seat; none where the hand is missing.
    pub open spec fn hand_of(self, p: PlayerPosition) -> Seq<Card> {
        match self.hands[seat(p)] {
            Some(h) => h,
            None => Seq::empty(),
        }
    }
}

/// One for a taken slot, zero for an empty one.
pub open spec fn slot_count(slot: Option<Card>) -> int {
    if slot is Some {
        1
    } else {
        0
    }
}

/// The number of cards on a four-slot table.
pub open spec fn cards_on_table(table: Seq<Option<Card>>) -> int {
    slot_count(table[0]) + slot_count(table[1]) + slot_count(table[2]) + slot_count(table[3])
}

/// The number of cards held at the four seats.
pub open spec fn cards_held(m: GameModel) -> int {
    (m.hand_of(PlayerPosition::North).len() + m.hand_of(PlayerPosition::East).len() + m.hand_of(
        PlayerPosition::South,
    ).len() + m.hand_of(PlayerPosition::West).len()) as int
}

/// The table without any card.
pub open spec fn empty_table() -> Seq<Option<Card>> {
    seq![None, None, None, None]
}

/// What a player may see of a deal: own hand, the dummy's hand once the play
/// has begun (to everyone but the dummy), the table, whose turn it is, the
/// phase, and how many cards each other seat holds.
pub open spec fn public_view_of(m: GameModel, player: PlayerPosition, r: PublicGameState) -> bool {
    &&& r.pot == m.pot
    &&& r.my_hand@ == m.hand_of(player)
    &&& r.dummy_hand matches Some(d) ==> (m.phase is Playing && d@ == m.hand_of(
        m.phase->Playing_0.dummy,
    ))
    &&& r.dummy_hand is Some <==> (m.phase matches PhaseModel::Playing(ps) && ps.dummy != player)
    &&& r.table@ == m.table
    &&& r.current_turn == m.current_player
    &&& r.phase@ == m.phase
    &&& r.your_pos == player
    &&& r.opponent_card_counts@.len() == 4
    &&& forall|i: int|
        0 <= i < 4 ==> #[trigger] r.opponent_card_counts@[i] == if seat_at(i) == player {
            None
        } else {
            Some(m.hand_of(seat_at(i)).len() as usize)
        }
}

impl GameState {
    /// The cards held at a seat, copied; empty where the hand is missing.
    fn hand_copy(&self, p: PlayerPosition) -> (r: Vec<Card>)
        requires
            self@.wf(),
        ensures
            r@ == self@.hand_of(p),
    {
        let i = p.index();
        match &self.hands[i] {
            Some(h) => copy_vec(h),
            None => Vec::new(),
        }
    }

    /// What `player` may see of the deal.
    pub fn for_player(&self, player: PlayerPosition) -> (r: PublicGameState)
        requires
            self@.wf(),
        ensures
            public_view_of(self@, player, r),
    {
        let dummy_hand = match &self.phase {
            GamePhaseData::Playing(ps) => {
                if ps.dummy != player {
                    Some(self.hand_copy(ps.dummy))
                } else {
                    None
                }
            },
            _ => None,
        };
        let mut counts: Vec<Option<usize>> = Vec::new();
        let mut i: usize = 0;
        while i < 4
            invariant
                self@.wf(),
                i <= 4,
                counts@.len() == i,
                forall|j: int|
                    0 <= j < counts@.len() ==> #[trigger] counts@[j] == if seat_at(j) == player {
                        None
                    } else {
                        Some(self@.hand_of(seat_at(j)).len() as usize)
                    },
            decreases 4 - i,
        {
            let pos = PlayerPosition::cycle(i);
            if pos == player {
                counts.push(None);
            } else {
                let n = match &self.hands[i] {
                    Some(h) => h.len(),
                    None => 0,
                };
                counts.push(Some(n));
            }
            i = i + 1;
        }
        PublicGameState {
            pot: self.pot,
            my_hand: self.hand_copy(player),
            dummy_hand,
            table: copy_vec(&self.table),
            current_turn: self.current_player,
            phase: self.phase.duplicate(),
            your_pos: player,
            opponent_card_counts: counts,
        }
    }
}

/// The hands of the four seats, clockwise from North.
pub open spec fn hands_in_seat_order(m: GameModel) -> Seq<Seq<Card>> {
    seq![
        m.hand_of(PlayerPosition::North),
        m.hand_of(PlayerPosition::East),
        m.hand_of(PlayerPosition::South),
        m.hand_of(PlayerPosition::West),
    ]
}

/// A fresh deal: every seat holds thirteen cards dealt from a shuffled new
/// pack, the table is empty, North is to speak and the auction is empty.
pub open spec fn is_fresh_deal(m: GameModel) -> bool {
    &&& m.wf()
    &&& forall|i: int| 0 <= i < 4 ==> (#[trigger] m.hands[i]) is Some
    &&& is_deal_of(hands_in_seat_order(m), full_deck())
    &&& m.table == empty_table()
    &&& m.current_player == PlayerPosition::North
    &&& m.pot == 0
    &&& m.phase == PhaseModel::Bidding(empty_auction())
}

impl Default for GameState {
    fn default() -> (r: Self)
        ensures
            is_fresh_deal(r@),
    {
        let dealt = Deck::new().deal();
        let north = copy_vec(&dealt[0]);
        let east = copy_vec(&dealt[1]);
        let south = copy_vec(&dealt[2]);
        let west = copy_vec(&dealt[3]);
        proof {
            assert(seq![north@, east@, south@, west@] =~= seq![dealt[0]@, dealt[1]@, dealt[2]@, dealt[3]@]);
        }
        let mut hands: Vec<Option<Vec<Card>>> = Vec::new();
        hands.push(Some(north));
        hands.push(Some(east));
        hands.push(Some(south));
        hands.push(Some(west));
        let mut table: Vec<Option<Card>> = Vec::new();
        table.push(None);
        table.push(None);
        table.push(None);
        table.push(None);
        let r = GameState {
            hands,
            table,
            current_player: PlayerPosition::North,
            pot: 0,
            phase: GamePhaseData::Bidding(BiddingState::default()),
        };
        proof {
            assert(r@.table =~= empty_table());
            assert(hands_in_seat_order(r@) =~= seq![north@, east@, south@, west@]);
        }
        r
    }
}

/// In a fresh deal every seat holds thirteen cards, and the four hands
/// together hold each card of the pack exactly once.
pub proof fn lemma_fresh_deal_holds_pack(m: GameModel)
    requires
        is_fresh_deal(m),
    ensures
        forall|i: int| 0 <= i < 4 ==> #[trigger] m.hand_of(seat_at(i)).len() == 13,
        (m.hand_of(PlayerPosition::North) + m.hand_of(PlayerPosition::East) + m.hand_of(
            PlayerPosition::South,
        ) + m.hand_of(PlayerPosition::West)).to_multiset() == full_deck().to_multiset(),
        forall|i: int, j: int|
            0 <= i < j < 52 ==> #[trigger] full_deck()[i] != #[trigger] full_deck()[j],
{
    let hands = hands_in_seat_order(m);
    crate::deck::lemma_deal_partitions_deck(hands, full_deck());
    crate::deck::lemma_full_deck_distinct();
    assert(hands[0].len() == 13 && hands[1].len() == 13 && hands[2].len() == 13 && hands[3].len() == 13);
}

} // verus!
