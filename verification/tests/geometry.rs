use sphenic_biaxe::puzzle::geometry::{
    half_chord, isqrt, Point, POLYGON_RESOLUTION, UNIT,
};
use sphenic_biaxe::{Grip, PuzzleConfig};

fn layout(a: u32, b: u32) -> PuzzleConfig {
    PuzzleConfig { a, b, a_axis_stationary: false, b_axis_stationary: true }
}

fn at(x: i64, y: i64) -> Point {
    Point { x, y }
}

#[test]
fn radii_are_those_of_polygons_with_one_more_side() {
    for n in 2..=16u32 {
        let c = layout(n, n);
        let sides = (n + 1) as f64;
        let around = 0.5 / (std::f64::consts::PI / sides).sin() * UNIT as f64;
        let inside = 0.5 / (std::f64::consts::PI / sides).tan() * UNIT as f64;
        assert_eq!(c.radius(Grip::A), around.round() as i64);
        assert_eq!(c.radius(Grip::B), around.round() as i64);
        assert_eq!(c.apothem(Grip::A), inside.round() as i64);
        assert_eq!(c.radius_sq(Grip::A), c.radius(Grip::A) * c.radius(Grip::A));
    }
}

#[test]
fn layout_of_five_against_three() {
    let c = layout(5, 3);
    assert_eq!(c.radius(Grip::A), 1_000_000);
    assert_eq!(c.radius(Grip::B), 707_107);
    assert_eq!(c.apothem(Grip::A), 866_025);
    assert_eq!(c.apothem(Grip::B), 500_000);
    assert_eq!(c.height(), 2_000_000);
    assert_eq!(c.width(), 3_073_132);
    assert_eq!(c.midpoint_x(), 1_866_025);
    assert_eq!(c.center(Grip::A), at(1_000_000, 1_000_000));
    assert_eq!(c.center(Grip::B), at(2_366_025, 1_000_000));
    assert_eq!(c.midpoint(), at(1_866_025, 1_000_000));
    assert_eq!(c.size(), at(3_073_132, 2_000_000));
}

#[test]
fn point_on_midline_belongs_to_one_disk_or_none() {
    let c = layout(5, 3);
    let mid = c.midpoint_x();
    let on_line = at(mid, 1_000_000);
    assert!(!c.is_hovered(Grip::A, on_line));
    assert!(c.is_hovered(Grip::B, on_line));
    assert_eq!(c.hovered_grip(on_line), Some(Grip::B));
    let far_up = at(mid, 0);
    assert!(!c.is_hovered(Grip::A, far_up));
    assert!(!c.is_hovered(Grip::B, far_up));
    assert_eq!(c.hovered_grip(far_up), None);
    let mut y = -100_000;
    while y <= 2_100_000 {
        let p = at(mid, y);
        assert!(!(c.is_hovered(Grip::A, p) && c.is_hovered(Grip::B, p)));
        assert!(!c.is_hovered(Grip::A, p));
        y += 50_000;
    }
}

#[test]
fn no_point_is_claimed_by_both_disks() {
    for (a, b) in [(5u32, 3u32), (2, 2), (16, 16), (2, 16), (16, 2)] {
        let c = layout(a, b);
        let mut x = -200_000;
        while x <= c.width() + 200_000 {
            let mut y = -200_000;
            while y <= c.height() + 200_000 {
                let p = at(x, y);
                let in_a = c.is_hovered(Grip::A, p);
                let in_b = c.is_hovered(Grip::B, p);
                assert!(!(in_a && in_b));
                let want = if in_a {
                    Some(Grip::A)
                } else if in_b {
                    Some(Grip::B)
                } else {
                    None
                };
                assert_eq!(c.hovered_grip(p), want);
                y += 97_001;
            }
            x += 89_003;
        }
    }
}

#[test]
fn hover_needs_the_point_inside_the_circle() {
    let c = layout(5, 3);
    assert_eq!(c.hovered_grip(at(1_000_000, 1_000_000)), Some(Grip::A));
    assert_eq!(c.hovered_grip(at(1, 1_000_000)), Some(Grip::A));
    assert_eq!(c.hovered_grip(at(0, 1_000_000)), None);
    assert_eq!(c.hovered_grip(at(1_000_000, 0)), None);
    assert_eq!(c.hovered_grip(at(1_000_000, 1)), Some(Grip::A));
    assert_eq!(c.hovered_grip(at(2_366_025, 1_000_000)), Some(Grip::B));
    assert_eq!(c.hovered_grip(at(3_073_131, 1_000_000)), Some(Grip::B));
    assert_eq!(c.hovered_grip(at(3_073_132, 1_000_000)), None);
    assert_eq!(c.hovered_grip(at(i64::MAX, i64::MIN)), None);
    assert_eq!(c.hovered_grip(at(i64::MIN, i64::MAX)), None);
}

#[test]
fn integer_square_root_rounds_down() {
    assert_eq!(isqrt(0), 0);
    assert_eq!(isqrt(1), 1);
    assert_eq!(isqrt(3), 1);
    assert_eq!(isqrt(4), 2);
    assert_eq!(isqrt(99), 9);
    assert_eq!(isqrt(1_000_000_000_000), 1_000_000);
    assert_eq!(isqrt(999_999_999_999), 999_999);
    assert_eq!(isqrt(u64::MAX), 4_294_967_295);
}

#[test]
fn half_chord_is_leg_of_right_triangle() {
    assert_eq!(half_chord(5, 3), 4);
    assert_eq!(half_chord(5, -4), 3);
    assert_eq!(half_chord(5, 5), 0);
    assert_eq!(half_chord(5, 6), 0);
    assert_eq!(half_chord(1_000_000, 0), 1_000_000);
    assert_eq!(half_chord(1_000_000, 500_000), 866_025);
}

#[test]
fn sector_radius_depends_on_axis() {
    let c = layout(5, 3);
    assert_eq!(c.sector_radius(Grip::A), 1_000_000);
    // halfway between the radius of B and the gap that A leaves
    assert_eq!(c.sector_radius(Grip::B), (707_107 + (866_025 + 500_000 - 1_000_000)) / 2);
    assert_eq!(c.sector_label_position(Grip::A), at(1_288_674, 1_000_000));
}

#[test]
fn resolutions_share_out_the_points_of_a_disk() {
    let c = layout(5, 3);
    assert_eq!(POLYGON_RESOLUTION, 200);
    assert_eq!(c.sphene_resolution(Grip::A), 40);
    assert_eq!(c.sphene_resolution(Grip::B), 66);
    assert_eq!(c.sector_resolution(Grip::A), 33);
    assert_eq!(c.sector_resolution(Grip::B), 50);
}

#[test]
fn sector_resolution_counts_one_sector_more_than_the_disk_has() {
    for n in 2..=16u32 {
        let c = layout(n, 2);
        let angle = std::f32::consts::TAU / n as f32;
        let frac = (std::f32::consts::TAU / angle) as u32 + 1;
        assert_eq!(c.sector_resolution(Grip::A), POLYGON_RESOLUTION / frac);
        assert_eq!(c.sphene_resolution(Grip::A), POLYGON_RESOLUTION / n);
    }
}

#[test]
fn sphene_outline_runs_down_one_arc_and_up_the_other() {
    let c = layout(5, 3);
    let points = c.sphene_points();
    assert_eq!(points.len(), 40 + 66);
    // first point: half an edge above the centre line, on the circle of A
    assert_eq!(points[0], at(1_000_000 + 866_025, 1_000_000 - 500_000));
    // middle of the first arc: the rightmost point of the circle of A
    assert_eq!(points[20], at(2_000_000, 1_000_000));
    // first point of the second arc: half an edge below, on the circle of B
    assert_eq!(points[40], at(2_366_025 - half_chord(707_107, 500_000), 1_500_000));
    for (i, p) in points.iter().enumerate() {
        let (centre, radius, sign) = if i < 40 {
            (c.center(Grip::A), c.radius(Grip::A) as f64, 1.0)
        } else {
            (c.center(Grip::B), c.radius(Grip::B) as f64, -1.0)
        };
        let dx = (p.x - centre.x) as f64;
        let dy = (p.y - centre.y) as f64;
        assert!(dx * sign > 0.0);
        assert!(((dx * dx + dy * dy).sqrt() - radius).abs() < 2.0);
        assert!(dy.abs() <= 500_000.0);
    }
}
