use sphenic_biaxe::angle::{
    nearest_sector, sector_angle, short_way, twist_angle, HALF_TURN, TURN,
};
use sphenic_biaxe::util::{lerp, WEIGHT_FULL};

const DEGREE: i64 = TURN / 360;

#[test]
fn sectors_fill_the_turn_exactly() {
    for n in 2..=16u32 {
        assert_eq!(sector_angle(n) * n as i64, TURN);
    }
    assert_eq!(sector_angle(5), 144_144);
    assert_eq!(sector_angle(16), 45_045);
    assert_eq!(HALF_TURN * 2, TURN);
    assert_eq!(DEGREE * 360, TURN);
}

#[test]
fn twist_angle_is_signed_sector_count() {
    assert_eq!(twist_angle(5, 1, 2), 288_288);
    assert_eq!(twist_angle(5, -1, 2), -288_288);
    assert_eq!(twist_angle(3, 1, 0), 0);
    assert_eq!(twist_angle(2, -1, u32::MAX), -360_360 * u32::MAX as i64);
}

#[test]
fn short_way_moves_far_targets_by_one_turn() {
    assert_eq!(short_way(0, 100), 100);
    assert_eq!(short_way(0, HALF_TURN), HALF_TURN);
    assert_eq!(short_way(0, HALF_TURN + 1), HALF_TURN + 1 - TURN);
    assert_eq!(short_way(0, -HALF_TURN), -HALF_TURN);
    assert_eq!(short_way(0, -HALF_TURN - 1), -HALF_TURN - 1 + TURN);
    assert_eq!(short_way(-180_180, -432_432), -432_432);
    assert_eq!(short_way(300_000, -288_288), -288_288 + TURN);
    assert_eq!(short_way(0, 3 * TURN), 2 * TURN);
}

#[test]
fn nearest_sector_rounds_halves_away_from_zero() {
    let w = sector_angle(5);
    assert_eq!(nearest_sector(0, 5), 0);
    assert_eq!(nearest_sector(w / 2 - 1, 5), 0);
    assert_eq!(nearest_sector(w / 2, 5), 1);
    assert_eq!(nearest_sector(-(w / 2) + 1, 5), 0);
    assert_eq!(nearest_sector(-(w / 2), 5), -1);
    assert_eq!(nearest_sector(90 * DEGREE, 5), 1);
    assert_eq!(nearest_sector(-200 * DEGREE, 5), -3);
    assert_eq!(nearest_sector(i64::MAX, 2), 25_594_882_997_155);
    assert_eq!(nearest_sector(i64::MIN, 16), -204_759_063_977_240);
}

#[test]
fn lerp_starts_at_a_and_ends_at_b() {
    assert_eq!(lerp(10, 20, 0), 10);
    assert_eq!(lerp(10, 20, WEIGHT_FULL), 20);
    assert_eq!(lerp(10, 20, WEIGHT_FULL / 2), 15);
    assert_eq!(lerp(20, 10, WEIGHT_FULL / 4), 17);
    assert_eq!(lerp(-10, 10, WEIGHT_FULL / 4), -5);
    assert_eq!(lerp(0, -3, WEIGHT_FULL / 2), -2);
    assert_eq!(lerp(i64::MIN, i64::MAX, 0), i64::MIN);
    assert_eq!(lerp(i64::MIN, i64::MAX, WEIGHT_FULL), i64::MAX);
    assert_eq!(lerp(i64::MIN, i64::MAX, WEIGHT_FULL / 2), -1);
}

#[test]
fn lerp_never_turns_back() {
    let mut last = lerp(-288_288, 432_432, 0);
    let mut t = 0u32;
    while t <= WEIGHT_FULL {
        let here = lerp(-288_288, 432_432, t);
        assert!(here >= last);
        assert!(-288_288 <= here && here <= 432_432);
        last = here;
        t += 997;
    }
    let mut last = lerp(5, -5, 0);
    let mut t = 0u32;
    while t <= WEIGHT_FULL {
        let here = lerp(5, -5, t);
        assert!(here <= last);
        last = here;
        t += 50_000;
    }
}
