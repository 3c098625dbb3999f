//! The weighted sampling primitives the generator depends on.

use crate::consts::{in_interior, Position};
use crate::errors::DungeonError;
use crate::rng::random_below;
use vstd::prelude::*;

verus! {

/// The sum of the weights of the first `n` items of a distribution.
pub open spec fn sum_of_weights<Value>(items: Seq<(Value, u32)>, n: int) -> int
    decreases n,
{
    if n <= 0 {
        0
    } else {
        sum_of_weights(items, n - 1) + items[n - 1].1
    }
}

/// A sum of non-negative weights is non-negative.
proof fn lemma_sum_of_weights_nonneg<Value>(items: Seq<(Value, u32)>, n: int)
    requires
        n <= items.len(),
    ensures
        0 <= sum_of_weights(items, n),
    decreases n,
{
    if n > 0 {
        lemma_sum_of_weights_nonneg(items, n - 1);
    }
}

/// A partial sum of non-negative weights never exceeds the full sum.
proof fn lemma_sum_of_weights_bounds<Value>(items: Seq<(Value, u32)>, n1: int, n2: int)
    requires
        0 <= n1 <= n2 <= items.len(),
    ensures
        0 <= sum_of_weights(items, n1) <= sum_of_weights(items, n2),
    decreases n2,
{
    lemma_sum_of_weights_nonneg(items, n1);
    if n1 < n2 {
        lemma_sum_of_weights_bounds(items, n1, n2 - 1);
    }
}

/// If the weights sum to zero, every single weight is zero.
proof fn lemma_sum_zero_all_zero<Value>(items: Seq<(Value, u32)>, n: int)
    requires
        0 <= n <= items.len(),
        sum_of_weights(items, n) == 0,
    ensures
        forall|i: int| 0 <= i < n ==> (#[trigger] items[i]).1 == 0,
    decreases n,
{
    if n > 0 {
        lemma_sum_of_weights_bounds(items, n - 1, n);
        lemma_sum_zero_all_zero(items, n - 1);
    }
}

/// Draws one item from a discrete distribution, with probability
/// proportional to its weight. Returns `EmptyDistribution` when the
/// distribution is empty or every weight is zero, and in every other case an
/// item whose weight is positive.
pub fn select_random_weighted<Value>(items: &Vec<(Value, u32)>) -> (r: Result<
    &Value,
    DungeonError,
>)
    requires
        items@.len() <= 0xFFFF_FFFF,
    ensures
        match r {
            Ok(v) => exists|i: int|
                0 <= i < items@.len() && (#[trigger] items@[i]).1 > 0 && *v == items@[i].0,
            Err(e) => {
                &&& e == DungeonError::EmptyDistribution
                &&& forall|i: int| 0 <= i < items@.len() ==> (#[trigger] items@[i]).1 == 0
            },
        },
{
    let ghost s = items@;
    let n = items.len();
    let mut total: u64 = 0;
    let mut i: usize = 0;
    while i < n
        invariant
            0 <= i <= n,
            n == s.len() <= 0xFFFF_FFFF,
            s == items@,
            total == sum_of_weights(s, i as int),
            total <= (i as int) * 0x1_0000_0000,
        decreases n - i,
    {
        proof {
            assert((i as int) * 0x1_0000_0000 + 0xFFFF_FFFF <= (i + 1) * 0x1_0000_0000)
                by (nonlinear_arith);
            assert((i + 1) * 0x1_0000_0000 <= 0x1_0000_0000_0000_0000int) by (nonlinear_arith)
                requires
                    i + 1 <= 0x1_0000_0000,
            ;
        }
        total = total + (items[i].1 as u64);
        i = i + 1;
    }
    if total == 0 {
        proof {
            lemma_sum_zero_all_zero(s, n as int);
        }
        return Err(DungeonError::EmptyDistribution);
    }
    let pick = random_below(total);
    let mut acc: u64 = 0;
    let mut j: usize = 0;
    while j < n
        invariant
            0 <= j <= n,
            n == s.len(),
            s == items@,
            total == sum_of_weights(s, n as int),
            acc == sum_of_weights(s, j as int),
            acc <= pick < total,
        decreases n - j,
    {
        let w = items[j].1 as u64;
        proof {
            lemma_sum_of_weights_bounds(s, j + 1, n as int);
        }
        if pick < acc + w {
            return Ok(&items[j].0);
        }
        acc = acc + w;
        j = j + 1;
    }
    proof {
        assert(false);
    }
    Err(DungeonError::EmptyDistribution)
}

/// The patch of tiles where enemies may spawn: strictly inside the playable
/// interior, so a freshly entered player can never land on an enemy.
pub open spec fn in_spawn_area(p: Position) -> bool {
    &&& 3 <= p.x <= 10
    &&& 3 <= p.y <= 5
}

/// Spawn tiles are interior tiles.
pub proof fn lemma_spawn_area_interior(p: Position)
    requires
        in_spawn_area(p),
    ensures
        in_interior(p),
{
}

/// Draws a uniformly random tile of the enemy spawn area.
pub fn generate_enemy_position() -> (p: Position)
    ensures
        in_spawn_area(p),
{
    let x = (random_below(8) as u8) + 3;
    let y = (random_below(3) as u8) + 3;
    Position { x, y }
}

} // verus!
