use vstd::prelude::*;
use crate::seats::{seat, seat_at, PlayerPosition};

verus! {

/// A table that players join: one slot per seat, clockwise from North,
/// holding whatever reaches the player sitting there.
pub struct Lobby<T> {
    pub players: Vec<Option<T>>,
}

/// Seat number `i` is the first free seat.
pub open spec fn is_first_free<T>(slots: Seq<Option<T>>, i: int) -> bool {
    &&& 0 <= i < slots.len()
    &&& slots[i] is None
    &&& forall|j: int| 0 <= j < i ==> #[trigger] slots[j] is Some
}

impl<T> Lobby<T> {
    /// An empty table.
    pub fn new() -> (r: Self)
        ensures
            r.players@.len() == 4,
            forall|i: int| 0 <= i < 4 ==> #[trigger] r.players@[i] is None,
    {
        let mut players: Vec<Option<T>> = Vec::new();
        players.push(None);
        players.push(None);
        players.push(None);
        players.push(None);
        Lobby { players }
    }

    /// Seats a new player at the first free seat clockwise from North and
    /// returns it; a full table is left as it was and gives `None`.
    pub fn add_player(&mut self, tx: T) -> (r: Option<PlayerPosition>)
        requires
            old(self).players@.len() == 4,
        ensures
            match r {
                Some(p) => is_first_free(old(self).players@, seat(p)) && final(self).players@
                    == old(self).players@.update(seat(p), Some(tx)),
                None => (forall|i: int| 0 <= i < 4 ==> #[trigger] old(self).players@[i] is Some)
                    && final(self).players@ == old(self).players@,
            },
    {
        let mut i: usize = 0;
        while i < 4
            invariant
                i <= 4,
                self.players@ == old(self).players@,
                self.players@.len() == 4,
                forall|j: int| 0 <= j < i ==> #[trigger] self.players@[j] is Some,
            decreases 4 - i,
        {
            if self.players[i].is_none() {
                let pos = PlayerPosition::cycle(i);
                self.players.set(i, Some(tx));
                return Some(pos);
            }
            i = i + 1;
        }
        None
    }

    /// Every seat is taken.
    pub fn is_full(&self) -> (r: bool)
        requires
            self.players@.len() == 4,
        ensures
            r == forall|i: int| 0 <= i < 4 ==> #[trigger] self.players@[i] is Some,
    {
        let mut i: usize = 0;
        while i < 4
            invariant
                i <= 4,
                self.players@.len() == 4,
                forall|j: int| 0 <= j < i ==> #[trigger] self.players@[j] is Some,
            decreases 4 - i,
        {
            if self.players[i].is_none() {
                return false;
            }
            i = i + 1;
        }
        true
    }
}

// The answers to a refused join.

pub open spec fn msg_lobby_full() -> Seq<char> {
    "Lobby ist voll"@
}

pub open spec fn msg_no_free_seat() -> Seq<char> {
    "Keine Position frei"@
}

/// Seat number `i` is the first seat, clockwise from North, that nobody in
/// `taken` occupies.
pub open spec fn is_first_untaken(taken: Seq<PlayerPosition>, i: int) -> bool {
    &&& 0 <= i < 4
    &&& !taken.contains(seat_at(i))
    &&& forall|j: int| 0 <= j < i ==> taken.contains(#[trigger] seat_at(j))
}

/// Where a user sits on joining a table whose players sit at `taken` (one
/// entry per player), and whether the table is then full. A user who already
/// sits at the table keeps the seat. Otherwise a table of four or more is
/// refused; else the user takes the first untaken seat clockwise from North,
/// and the join is refused when there is none.
pub open spec fn join_result(taken: Seq<PlayerPosition>, already_seated: Option<PlayerPosition>) -> Result<(PlayerPosition, bool), Seq<char>> {
    match already_seated {
        Some(p) => Ok((p, taken.len() == 4)),
        None => if taken.len() >= 4 {
            Err(msg_lobby_full())
        } else if exists|i: int| is_first_untaken(taken, i) {
            Ok((seat_at(choose|i: int| is_first_untaken(taken, i)), taken.len() + 1 == 4))
        } else {
            Err(msg_no_free_seat())
        },
    }
}

proof fn lemma_first_untaken_unique(taken: Seq<PlayerPosition>, i: int, k: int)
    requires
        is_first_untaken(taken, i),
        is_first_untaken(taken, k),
    ensures
        i == k,
{
    if i < k {
        assert(taken.contains(seat_at(i)));
    } else if k < i {
        assert(taken.contains(seat_at(k)));
    }
}

fn is_taken(taken: &Vec<PlayerPosition>, p: PlayerPosition) -> (r: bool)
    ensures
        r == taken@.contains(p),
{
    let mut i: usize = 0;
    while i < taken.len()
        invariant
            i <= taken@.len(),
            forall|j: int| 0 <= j < i ==> taken@[j] != p,
        decreases taken@.len() - i,
    {
        if taken[i] == p {
            return true;
        }
        i = i + 1;
    }
    false
}

/// The seat of a user joining a table; see [`join_result`].
pub fn seat_for_join(taken: &Vec<PlayerPosition>, already_seated: Option<PlayerPosition>) -> (r:
    Result<(PlayerPosition, bool), String>)
    ensures
        match join_result(taken@, already_seated) {
            Ok(v) => r matches Ok(x) && x == v,
            Err(e) => r matches Err(s) && s@ == e,
        },
{
    if let Some(p) = already_seated {
        return Ok((p, taken.len() == 4));
    }
    if taken.len() >= 4 {
        return Err("Lobby ist voll".to_string());
    }
    let mut i: usize = 0;
    while i < 4
        invariant
            i <= 4,
            already_seated is None,
            taken@.len() < 4,
            forall|j: int| 0 <= j < i ==> taken@.contains(#[trigger] seat_at(j)),
        decreases 4 - i,
    {
        let p = PlayerPosition::cycle(i);
        if !is_taken(taken, p) {
            proof {
                assert(is_first_untaken(taken@, i as int));
                lemma_first_untaken_unique(taken@, i as int, choose|k: int| is_first_untaken(taken@, k));
            }
            return Ok((p, taken.len() + 1 == 4));
        }
        i = i + 1;
    }
    proof {
        assert forall|k: int| !is_first_untaken(taken@, k) by {
            if 0 <= k < 4 {
                assert(taken@.contains(seat_at(k)));
            }
        }
    }
    Err("Keine Position frei".to_string())
}

} // verus!
