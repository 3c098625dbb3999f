//! Tuning of the dungeon: weight tables for door and enemy counts, the
//! enemy level curve, and the combat win probability.
//!
//! Probabilities are exact dyadic rationals, carried as fixed-point numbers
//! with 32 fractional bits: a value `p` stands for the probability
//! `p / 2^32`, so `0` is impossible and [`PROBABILITY_ONE`] is certain.

use vstd::arithmetic::power2::{
    lemma2_to64, lemma_pow2_pos, lemma_pow2_strictly_increases, pow2,
};
use vstd::bits::lemma_u64_shl_is_mul;
use vstd::prelude::*;

verus! {

/// The fixed-point encoding of probability 1 (`2^32`).
pub const PROBABILITY_ONE: u64 = 0x1_0000_0000;

/// The fixed-point encoding of probability 1/2 (`2^31`).
pub const PROBABILITY_HALF: u64 = 0x8000_0000;

/// The chance of winning a fight, as a fixed-point probability.
///
/// For a level difference `d = player_level - enemy_level`, the intended
/// probability is `max(0, 1 - 2^-(d+1))`: one half at equal levels, rising
/// toward 1 as the player outlevels the enemy, and zero once the enemy is
/// ahead. Differences of 31 or more levels are rounded to the largest
/// representable probability below 1.
pub open spec fn spec_win_probability(player_level: int, enemy_level: int) -> int {
    let d = player_level - enemy_level;
    if d < 0 {
        0
    } else if d >= 31 {
        PROBABILITY_ONE - 1
    } else {
        PROBABILITY_ONE - pow2((31 - d) as nat)
    }
}

/// Executable counterpart of [`spec_win_probability`].
pub fn win_probability_function(player_level: u16, enemy_level: u16) -> (r: u64)
    ensures
        r == spec_win_probability(player_level as int, enemy_level as int),
{
    if player_level < enemy_level {
        0
    } else {
        let d = player_level - enemy_level;
        if d >= 31 {
            PROBABILITY_ONE - 1
        } else {
            let shift: u64 = (31 - d) as u64;
            proof {
                lemma2_to64();
                lemma_pow2_strictly_increases(shift as nat, 32);
                lemma_u64_shl_is_mul(1u64, shift);
            }
            PROBABILITY_ONE - (1u64 << shift)
        }
    }
}

/// The win probability is a probability: it lies strictly below 1 and never
/// goes negative, whatever the two levels are.
pub proof fn lemma_win_probability_bounds(player_level: int, enemy_level: int)
    ensures
        0 <= spec_win_probability(player_level, enemy_level) < PROBABILITY_ONE,
{
    let d = player_level - enemy_level;
    if 0 <= d < 31 {
        lemma_pow2_pos((31 - d) as nat);
        lemma2_to64();
        lemma_pow2_strictly_increases((31 - d) as nat, 32);
    }
}

/// At equal levels the fight is a coin toss: the win probability is exactly
/// one half.
pub proof fn lemma_win_probability_equal_levels(level: int)
    ensures
        spec_win_probability(level, level) == PROBABILITY_HALF,
{
    lemma2_to64();
}

/// The win probability never falls when the player's level rises.
pub proof fn lemma_win_probability_monotone_in_player(p1: int, p2: int, enemy_level: int)
    requires
        p1 <= p2,
    ensures
        spec_win_probability(p1, enemy_level) <= spec_win_probability(p2, enemy_level),
{
    let d1 = p1 - enemy_level;
    let d2 = p2 - enemy_level;
    if 0 <= d1 && d1 <= d2 {
        if d1 < 31 {
            lemma_pow2_pos((31 - d1) as nat);
            lemma2_to64();
            lemma_pow2_strictly_increases((31 - d1) as nat, 32);
            if d2 < 31 && d1 < d2 {
                lemma_pow2_strictly_increases((31 - d2) as nat, (31 - d1) as nat);
            }
        }
    } else if d1 < 0 <= d2 {
        lemma_win_probability_bounds(p2, enemy_level);
    }
}

/// The win probability never rises when the enemy's level rises.
pub proof fn lemma_win_probability_antitone_in_enemy(player_level: int, e1: int, e2: int)
    requires
        e1 <= e2,
    ensures
        spec_win_probability(player_level, e2) <= spec_win_probability(player_level, e1),
{
    lemma_win_probability_monotone_in_player(
        player_level - (e2 - e1),
        player_level,
        e1,
    );
    assert(spec_win_probability(player_level - (e2 - e1), e1)
        == spec_win_probability(player_level, e2));
}

/// The level of enemies spawned at a given Manhattan distance from the
/// origin: a quadratic curve, one fifth of the squared distance.
pub open spec fn spec_enemy_level(distance: int) -> int {
    distance * distance / 5
}

/// Executable counterpart of [`spec_enemy_level`]. The bound on `distance`
/// keeps the result within `u16`; grid coordinates give distances of at most
/// 256.
pub fn enemy_level_function(distance: u16) -> (r: u16)
    requires
        distance <= 512,
    ensures
        r == spec_enemy_level(distance as int),
{
    proof {
        assert((distance as int) * (distance as int) <= 512 * 512) by (nonlinear_arith)
            requires
                0 <= distance <= 512,
        ;
    }
    let squared: u32 = (distance as u32) * (distance as u32);
    (squared / 5) as u16
}

/// Enemies never get easier farther from the origin: the level curve is
/// monotonically non-decreasing in the distance.
pub proof fn lemma_enemy_level_monotone(d1: int, d2: int)
    requires
        0 <= d1 <= d2,
    ensures
        spec_enemy_level(d1) <= spec_enemy_level(d2),
{
    assert(d1 * d1 <= d2 * d2) by (nonlinear_arith)
        requires
            0 <= d1 <= d2,
    ;
    vstd::arithmetic::div_mod::lemma_div_is_ordered(d1 * d1, d2 * d2, 5);
}

/// The weight table for how many of the freely choosable directions of a new
/// room become doors, keyed by the number of free candidates (1 to 3).
/// Weights are relative, out of a total of 100.
pub fn door_distribution(candidates: u8) -> (r: Vec<(u8, u32)>)
    requires
        1 <= candidates <= 3,
    ensures
        0 < r@.len() <= 4,
        forall|i: int| 0 <= i < r@.len() ==> (#[trigger] r@[i]).1 > 0,
        forall|i: int| 0 <= i < r@.len() ==> (#[trigger] r@[i]).0 <= candidates,
{
    if candidates == 1 {
        vec![(0u8, 25u32), (1u8, 75u32)]
    } else if candidates == 2 {
        vec![(0u8, 15u32), (1u8, 35u32), (2u8, 50u32)]
    } else {
        vec![(0u8, 10u32), (1u8, 30u32), (2u8, 50u32), (3u8, 10u32)]
    }
}

/// The weight table for how many enemies a new room holds: between zero and
/// three, with fewer enemies being more likely. Weights are relative, out of
/// a total of 100.
pub fn enemy_distribution() -> (r: Vec<(u8, u32)>)
    ensures
        0 < r@.len() <= 4,
        forall|i: int| 0 <= i < r@.len() ==> (#[trigger] r@[i]).1 > 0,
        forall|i: int| 0 <= i < r@.len() ==> (#[trigger] r@[i]).0 <= 3,
{
    vec![(0u8, 30u32), (1u8, 40u32), (2u8, 20u32), (3u8, 10u32)]
}

} // verus!
