use vstd::prelude::*;
use crate::bids::{level_value, Bid};
use crate::cards::Suit;

verus! {

/// The trick score of a made contract before any double.
pub open spec fn contract_points(contract: Bid) -> int {
    let level = level_value(contract.level);
    match contract.suit {
        Some(Suit::Clubs) | Some(Suit::Diamonds) => level * 20,
        Some(Suit::Hearts) | Some(Suit::Spades) => level * 30,
        None => 40 + (level - 1) * 30,
    }
}

/// The score of the declaring side for a deal.
///
/// Made, with `tricks - (level + 6)` overtricks: the contract points, times
/// two when doubled and times four more when redoubled; 50 for a double and
/// 100 more for a redouble; 300 (500 vulnerable) when the doubled contract
/// points reach 100, else 50; and per overtrick 200/400 redoubled, 100/200
/// doubled, else 20 in a minor and 30 in a major or no trumps.
///
/// Defeated, with `level + 6 - tricks` undertricks: minus, per undertrick,
/// 200/400 redoubled, 100/200 doubled, else 50/100 (not vulnerable /
/// vulnerable).
pub open spec fn bridge_score(
    contract: Bid,
    is_doubled: bool,
    is_redoubled: bool,
    declarer_tricks: int,
    is_vulnerable: bool,
) -> int {
    let target = level_value(contract.level) + 6;
    if declarer_tricks >= target {
        let overtricks = declarer_tricks - target;
        let base1 = if is_doubled { contract_points(contract) * 2 } else { contract_points(contract) };
        let base = if is_redoubled { base1 * 4 } else { base1 };
        let insult = (if is_doubled { 50int } else { 0int }) + (if is_redoubled { 100int } else { 0int });
        let bonus = if base >= 100 {
            if is_vulnerable { 500int } else { 300int }
        } else {
            50int
        };
        let per_overtrick = if is_redoubled {
            if is_vulnerable { 400int } else { 200int }
        } else if is_doubled {
            if is_vulnerable { 200int } else { 100int }
        } else {
            match contract.suit {
                Some(Suit::Clubs) | Some(Suit::Diamonds) => 20int,
                _ => 30int,
            }
        };
        insult + base + bonus + overtricks * per_overtrick
    } else {
        let undertricks = target - declarer_tricks;
        let per_undertrick = if is_redoubled {
            if is_vulnerable { 400int } else { 200int }
        } else if is_doubled {
            if is_vulnerable { 200int } else { 100int }
        } else {
            if is_vulnerable { 100int } else { 50int }
        };
        -(undertricks * per_undertrick)
    }
}

/// The score of the declaring side; see [`bridge_score`].
pub fn calculate_bridge_score(
    contract: &Bid,
    is_doubled: bool,
    is_redoubled: bool,
    declarer_tricks: u8,
    is_vulnerable: bool,
) -> (r: i32)
    ensures
        r == bridge_score(*contract, is_doubled, is_redoubled, declarer_tricks as int, is_vulnerable),
{
    let level = contract.level.val();
    let target_tricks: u8 = level + 6;
    let mut score: i32 = 0;
    if declarer_tricks >= target_tricks {
        let overtricks: u8 = declarer_tricks - target_tricks;
        let mut base_points: i32 = match contract.suit {
            Some(Suit::Clubs) | Some(Suit::Diamonds) => level as i32 * 20,
            Some(Suit::Hearts) | Some(Suit::Spades) => level as i32 * 30,
            None => 40 + (level as i32 - 1) * 30,
        };
        if is_doubled {
            base_points = base_points * 2;
            score = score + 50;
        }
        if is_redoubled {
            base_points = base_points * 4;
            score = score + 100;
        }
        score = score + base_points;
        if base_points >= 100 {
            score = score + if is_vulnerable { 500 } else { 300 };
        } else {
            score = score + 50;
        }
        let overtrick_points: i32 = if is_redoubled {
            if is_vulnerable { 400 } else { 200 }
        } else if is_doubled {
            if is_vulnerable { 200 } else { 100 }
        } else {
            match contract.suit {
                Some(Suit::Clubs) | Some(Suit::Diamonds) => 20,
                Some(Suit::Hearts) | Some(Suit::Spades) | None => 30,
            }
        };
        assert(0 <= overtricks as i32 * overtrick_points <= 255 * 400) by (nonlinear_arith)
            requires
                0 <= overtricks <= 255,
                0 <= overtrick_points <= 400,
        ;
        score = score + overtricks as i32 * overtrick_points;
    } else {
        let undertricks: u8 = target_tricks - declarer_tricks;
        let penalty: i32 = if is_redoubled {
            if is_vulnerable { undertricks as i32 * 400 } else { undertricks as i32 * 200 }
        } else if is_doubled {
            if is_vulnerable { undertricks as i32 * 200 } else { undertricks as i32 * 100 }
        } else {
            if is_vulnerable { undertricks as i32 * 100 } else { undertricks as i32 * 50 }
        };
        score = -penalty;
    }
    score
}

/// A made contract scores above zero for the declaring side, a defeated one
/// below zero.
pub proof fn lemma_score_sign(
    contract: Bid,
    is_doubled: bool,
    is_redoubled: bool,
    declarer_tricks: int,
    is_vulnerable: bool,
)
    requires
        0 <= declarer_tricks,
    ensures
        declarer_tricks >= level_value(contract.level) + 6 ==> bridge_score(
            contract,
            is_doubled,
            is_redoubled,
            declarer_tricks,
            is_vulnerable,
        ) > 0,
        declarer_tricks < level_value(contract.level) + 6 ==> bridge_score(
            contract,
            is_doubled,
            is_redoubled,
            declarer_tricks,
            is_vulnerable,
        ) < 0,
{
    let target = level_value(contract.level) + 6;
    if declarer_tricks >= target {
        let overtricks = declarer_tricks - target;
        assert(overtricks * 20 >= 0) by (nonlinear_arith)
            requires
                overtricks >= 0,
        ;
        assert(forall|k: int| 20 <= k <= 400 ==> #[trigger] (overtricks * k) >= 0) by (nonlinear_arith)
            requires
                overtricks >= 0,
        ;
    } else {
        let undertricks = target - declarer_tricks;
        assert(forall|k: int| 50 <= k <= 400 ==> #[trigger] (undertricks * k) > 0) by (nonlinear_arith)
            requires
                undertricks >= 1,
        ;
    }
}

/// More tricks never lower the score of the declaring side.
pub proof fn lemma_score_monotonic(
    contract: Bid,
    is_doubled: bool,
    is_redoubled: bool,
    t1: int,
    t2: int,
    is_vulnerable: bool,
)
    requires
        0 <= t1 <= t2,
    ensures
        bridge_score(contract, is_doubled, is_redoubled, t1, is_vulnerable) <= bridge_score(
            contract,
            is_doubled,
            is_redoubled,
            t2,
            is_vulnerable,
        ),
{
    let target = level_value(contract.level) + 6;
    lemma_score_sign(contract, is_doubled, is_redoubled, t1, is_vulnerable);
    lemma_score_sign(contract, is_doubled, is_redoubled, t2, is_vulnerable);
    if t1 >= target {
        let o1 = t1 - target;
        let o2 = t2 - target;
        assert(forall|k: int| 20 <= k <= 400 ==> #[trigger] (o1 * k) <= o2 * k) by (nonlinear_arith)
            requires
                0 <= o1 <= o2,
        ;
    } else if t2 < target {
        let u1 = target - t1;
        let u2 = target - t2;
        assert(forall|k: int| 50 <= k <= 400 ==> #[trigger] (u2 * k) <= u1 * k) by (nonlinear_arith)
            requires
                0 <= u2 <= u1,
        ;
    }
}

/// The score of a deal with at most 255 tricks to the declaring side lies
/// well within the range of `i32`.
pub proof fn lemma_score_bounds(
    contract: Bid,
    is_doubled: bool,
    is_redoubled: bool,
    declarer_tricks: int,
    is_vulnerable: bool,
)
    requires
        0 <= declarer_tricks <= 255,
    ensures
        -10000 <= bridge_score(contract, is_doubled, is_redoubled, declarer_tricks, is_vulnerable)
            <= 200000,
{
    let target = level_value(contract.level) + 6;
    if declarer_tricks >= target {
        let overtricks = declarer_tricks - target;
        assert(forall|k: int| 20 <= k <= 400 ==> #[trigger] (overtricks * k) <= 255 * 400) by (nonlinear_arith)
            requires
                0 <= overtricks <= 255,
        ;
    } else {
        let undertricks = target - declarer_tricks;
        assert(forall|k: int| 50 <= k <= 400 ==> #[trigger] (undertricks * k) <= 13 * 400) by (nonlinear_arith)
            requires
                0 <= undertricks <= 13,
        ;
    }
}

/// A defeated contract costs the same for every trick it falls short: the
/// score is the number of undertricks times the score of going one down.
pub proof fn lemma_undertricks_linear(
    contract: Bid,
    is_doubled: bool,
    is_redoubled: bool,
    declarer_tricks: int,
    is_vulnerable: bool,
)
    requires
        0 <= declarer_tricks < level_value(contract.level) + 6,
    ensures
        bridge_score(contract, is_doubled, is_redoubled, declarer_tricks, is_vulnerable) == (
        level_value(contract.level) + 6 - declarer_tricks) * bridge_score(
            contract,
            is_doubled,
            is_redoubled,
            level_value(contract.level) + 5,
            is_vulnerable,
        ),
{
    let u = level_value(contract.level) + 6 - declarer_tricks;
    assert(forall|k: int| #[trigger] (u * k) == u * k && -(u * k) == u * (-(1 * k))) by (nonlinear_arith);
}

/// Going one down undoubled and not vulnerable costs fifty.
pub proof fn lemma_one_down_costs_fifty(contract: Bid)
    ensures
        bridge_score(contract, false, false, level_value(contract.level) + 5, false) == -50,
{
}

/// Vulnerability doubles the penalty of a defeated contract.
pub proof fn lemma_vulnerable_doubles_penalty(
    contract: Bid,
    is_doubled: bool,
    is_redoubled: bool,
    declarer_tricks: int,
)
    requires
        0 <= declarer_tricks < level_value(contract.level) + 6,
    ensures
        bridge_score(contract, is_doubled, is_redoubled, declarer_tricks, true) == 2 * bridge_score(
            contract,
            is_doubled,
            is_redoubled,
            declarer_tricks,
            false,
        ),
{
    let u = level_value(contract.level) + 6 - declarer_tricks;
    assert(forall|k: int| #[trigger] (u * (2 * k)) == 2 * (u * k)) by (nonlinear_arith);
    assert(u * 100 == 2 * (u * 50) && u * 200 == 2 * (u * 100) && u * 400 == 2 * (u * 200));
}

/// A double doubles the penalty of a defeated contract, and a redouble
/// doubles it again.
pub proof fn lemma_double_doubles_penalty(
    contract: Bid,
    is_doubled: bool,
    declarer_tricks: int,
    is_vulnerable: bool,
)
    requires
        0 <= declarer_tricks < level_value(contract.level) + 6,
    ensures
        bridge_score(contract, true, false, declarer_tricks, is_vulnerable) == 2 * bridge_score(
            contract,
            false,
            false,
            declarer_tricks,
            is_vulnerable,
        ),
        bridge_score(contract, is_doubled, true, declarer_tricks, is_vulnerable) == 2 * bridge_score(
            contract,
            true,
            false,
            declarer_tricks,
            is_vulnerable,
        ),
{
    let u = level_value(contract.level) + 6 - declarer_tricks;
    assert(forall|k: int| #[trigger] (u * (2 * k)) == 2 * (u * k)) by (nonlinear_arith);
    assert(u * 100 == 2 * (u * 50) && u * 200 == 2 * (u * 100) && u * 400 == 2 * (u * 200));
}

/// Each overtrick of a made contract adds, undoubled, twenty in a minor and
/// thirty in a major or no trumps; doubled, 100 (200 vulnerable); redoubled,
/// 200 (400 vulnerable).
pub proof fn lemma_overtrick_worth(
    contract: Bid,
    is_doubled: bool,
    is_redoubled: bool,
    declarer_tricks: int,
    is_vulnerable: bool,
)
    requires
        declarer_tricks >= level_value(contract.level) + 6,
    ensures
        bridge_score(contract, is_doubled, is_redoubled, declarer_tricks + 1, is_vulnerable)
            - bridge_score(contract, is_doubled, is_redoubled, declarer_tricks, is_vulnerable) == if is_redoubled {
            if is_vulnerable { 400int } else { 200int }
        } else if is_doubled {
            if is_vulnerable { 200int } else { 100int }
        } else {
            match contract.suit {
                Some(Suit::Clubs) | Some(Suit::Diamonds) => 20int,
                _ => 30int,
            }
        },
{
    let o = declarer_tricks - (level_value(contract.level) + 6);
    assert(forall|k: int| #[trigger] ((o + 1) * k) == o * k + k) by (nonlinear_arith);
}

/// A contract made exactly, undoubled, scores its trick points plus 50 for a
/// part score, or plus 300 (500 vulnerable) when the trick points reach 100.
pub proof fn lemma_exact_make(contract: Bid, is_vulnerable: bool)
    ensures
        ({
            let level = level_value(contract.level);
            let points = match contract.suit {
                Some(Suit::Clubs) | Some(Suit::Diamonds) => 20 * level,
                Some(Suit::Hearts) | Some(Suit::Spades) => 30 * level,
                None => 30 * level + 10,
            };
            bridge_score(contract, false, false, level + 6, is_vulnerable) == points + if points >= 100 {
                if is_vulnerable { 500int } else { 300int }
            } else {
                50int
            }
        }),
{
}

} // verus!
