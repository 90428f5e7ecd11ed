use vstd::prelude::*;

verus! {

/// The four seats at the table, in clockwise order.
#[derive(Clone, Copy, Debug, PartialEq, Eq, Structural, Hash)]
pub enum PlayerPosition {
    North,
    East,
    South,
    West,
}

/// The two partnerships.
#[derive(Clone, Copy, Debug, PartialEq, Eq, Structural)]
pub enum Team {
    NordSouth,
    EastWest,
}

/// The number of a seat in the clockwise order that starts at North.
pub open spec fn seat(p: PlayerPosition) -> int {
    match p {
        PlayerPosition::North => 0,
        PlayerPosition::East => 1,
        PlayerPosition::South => 2,
        PlayerPosition::West => 3,
    }
}

/// The seat with the given number (taken modulo four).
pub open spec fn seat_at(i: int) -> PlayerPosition {
    let k = i % 4;
    if k == 0 {
        PlayerPosition::North
    } else if k == 1 {
        PlayerPosition::East
    } else if k == 2 {
        PlayerPosition::South
    } else {
        PlayerPosition::West
    }
}

/// The seat to the left, the next to act.
pub open spec fn spec_next(p: PlayerPosition) -> PlayerPosition {
    seat_at(seat(p) + 1)
}

/// The seat across the table.
pub open spec fn spec_partner(p: PlayerPosition) -> PlayerPosition {
    seat_at(seat(p) + 2)
}

/// The partnership that a seat belongs to.
pub open spec fn team_of(p: PlayerPosition) -> Team {
    match p {
        PlayerPosition::North | PlayerPosition::South => Team::NordSouth,
        PlayerPosition::East | PlayerPosition::West => Team::EastWest,
    }
}

/// All seats in clockwise order from North.
pub open spec fn all_seats() -> Seq<PlayerPosition> {
    seq![PlayerPosition::North, PlayerPosition::East, PlayerPosition::South, PlayerPosition::West]
}

impl PlayerPosition {
    /// The seat to the left, the next one to act.
    pub fn next(&self) -> (r: Self)
        ensures
            r == spec_next(*self),
            seat(r) == (seat(*self) + 1) % 4,
    {
        match self {
            Self::North => Self::East,
            Self::East => Self::South,
            Self::South => Self::West,
            Self::West => Self::North,
        }
    }

    /// All four seats, clockwise from North.
    pub fn all() -> (r: [Self; 4])
        ensures
            r@ == all_seats(),
            forall|i: int| 0 <= i < 4 ==> seat(#[trigger] r@[i]) == i,
    {
        [Self::North, Self::East, Self::South, Self::West]
    }

    /// The seat at the given step of the endless clockwise round that starts
    /// at North: North, East, South, West, North, ...
    pub fn cycle(step: usize) -> (r: Self)
        ensures
            r == seat_at(step as int),
            seat(r) == step % 4,
    {
        let k = step % 4;
        if k == 0 {
            Self::North
        } else if k == 1 {
            Self::East
        } else if k == 2 {
            Self::South
        } else {
            Self::West
        }
    }

    /// The seat across the table.
    pub fn partner(&self) -> (r: Self)
        ensures
            r == spec_partner(*self),
            seat(r) == (seat(*self) + 2) % 4,
    {
        match self {
            PlayerPosition::North => PlayerPosition::South,
            PlayerPosition::South => PlayerPosition::North,
            PlayerPosition::East => PlayerPosition::West,
            PlayerPosition::West => PlayerPosition::East,
        }
    }

    /// The number of the seat, clockwise from North at zero.
    pub fn index(&self) -> (r: usize)
        ensures
            r == seat(*self),
            r < 4,
    {
        match self {
            PlayerPosition::North => 0,
            PlayerPosition::East => 1,
            PlayerPosition::South => 2,
            PlayerPosition::West => 3,
        }
    }

    /// The partnership of the seat.
    pub fn team(&self) -> (r: Team)
        ensures
            r == team_of(*self),
    {
        match self {
            PlayerPosition::North | PlayerPosition::South => Team::NordSouth,
            PlayerPosition::East | PlayerPosition::West => Team::EastWest,
        }
    }
}

/// Four steps to the left bring a seat back to itself, and the seat two
/// steps away is the partner.
pub proof fn lemma_next_cycle(p: PlayerPosition)
    ensures
        spec_next(spec_next(spec_next(spec_next(p)))) == p,
        spec_next(spec_next(p)) == spec_partner(p),
        spec_next(p) != p,
{
}

/// Partnership is symmetric: a seat's partner differs from it, sits in the
/// same partnership, and has the seat as its own partner.
pub proof fn lemma_partner_involution(p: PlayerPosition)
    ensures
        spec_partner(spec_partner(p)) == p,
        spec_partner(p) != p,
        team_of(spec_partner(p)) == team_of(p),
        team_of(spec_next(p)) != team_of(p),
{
}

/// Seats and their numbers correspond one to one.
pub proof fn lemma_seat_numbers(p: PlayerPosition, q: PlayerPosition)
    ensures
        0 <= seat(p) < 4,
        seat_at(seat(p)) == p,
        seat(p) == seat(q) ==> p == q,
{
}

} // verus!
