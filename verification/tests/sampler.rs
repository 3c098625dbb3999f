//! Tests of the weighted sampler, the spawn-position generator, and the
//! numeric configuration functions.

use dungeon::config::{enemy_level_function, win_probability_function};
use dungeon::errors::DungeonError;
use dungeon::helper::{generate_enemy_position, select_random_weighted};

#[test]
fn sampler_picks_only_positive_weight_items() {
    // The first item has weight zero, so only the second can ever come out.
    let items: Vec<(u8, u32)> = vec![(1u8, 0u32), (2u8, 5u32)];
    for _ in 0..200 {
        let v = select_random_weighted(&items).unwrap();
        assert_eq!(*v, 2u8);
    }
}

#[test]
fn sampler_respects_membership() {
    let items: Vec<(u8, u32)> = vec![(0u8, 25u32), (1u8, 75u32)];
    for _ in 0..200 {
        let v = select_random_weighted(&items).unwrap();
        assert!(*v == 0 || *v == 1);
    }
}

#[test]
fn sampler_rejects_empty_distribution() {
    let items: Vec<(u8, u32)> = vec![];
    assert_eq!(
        select_random_weighted(&items).unwrap_err(),
        DungeonError::EmptyDistribution
    );
}

#[test]
fn sampler_rejects_all_zero_weights() {
    let items: Vec<(u8, u32)> = vec![(1u8, 0u32), (2u8, 0u32), (3u8, 0u32)];
    assert_eq!(
        select_random_weighted(&items).unwrap_err(),
        DungeonError::EmptyDistribution
    );
}

#[test]
fn enemy_positions_stay_in_spawn_area() {
    // Would fail if the uniform draw ever handed its bound back unchanged.
    for _ in 0..500 {
        let p = generate_enemy_position();
        assert!((3..=10).contains(&p.x), "x out of spawn area: {}", p.x);
        assert!((3..=5).contains(&p.y), "y out of spawn area: {}", p.y);
    }
}

#[test]
fn enemy_level_curve_exact_values() {
    // level = distance^2 / 5, rounded down.
    assert_eq!(enemy_level_function(0), 0);
    assert_eq!(enemy_level_function(1), 0);
    assert_eq!(enemy_level_function(3), 1);
    assert_eq!(enemy_level_function(5), 5);
    assert_eq!(enemy_level_function(10), 20);
    assert_eq!(enemy_level_function(256), 13107);
}

#[test]
fn enemy_level_curve_monotone() {
    let mut last = 0u16;
    for d in 0..=512u16 {
        let l = enemy_level_function(d);
        assert!(l >= last);
        last = l;
    }
}

#[test]
fn win_probability_half_at_equal_levels() {
    // Fixed point with 32 fractional bits: one half is 2^31.
    for level in [0u16, 1, 5, 100, 65535] {
        assert_eq!(win_probability_function(level, level), 0x8000_0000);
    }
}

#[test]
fn win_probability_zero_when_outleveled() {
    assert_eq!(win_probability_function(3, 7), 0);
    assert_eq!(win_probability_function(0, 1), 0);
    assert_eq!(win_probability_function(10, 1000), 0);
}

#[test]
fn win_probability_exact_dyadic_values() {
    // d = 1: 1 - 2^-2 = 3/4; d = 2: 1 - 2^-3 = 7/8.
    assert_eq!(win_probability_function(6, 5), 0xC000_0000);
    assert_eq!(win_probability_function(7, 5), 0xE000_0000);
    // Far ahead: the largest representable probability below one.
    assert_eq!(win_probability_function(100, 5), 0xFFFF_FFFF);
}

#[test]
fn win_probability_monotone_and_clamped() {
    let mut last = 0u64;
    for p in 0..80u16 {
        let w = win_probability_function(p, 40);
        assert!(w >= last);
        assert!(w < 0x1_0000_0000);
        last = w;
    }
    let mut last_enemy = win_probability_function(40, 0);
    for e in 0..80u16 {
        let w = win_probability_function(40, e);
        assert!(w <= last_enemy);
        last_enemy = w;
    }
}
