//! Where the disks lie and which of them a point belongs to.
//!
//! Lengths are whole numbers of which [`UNIT`] make the edge of one sector.
//! The two disks lie side by side. Each is as large as the circle around a
//! regular polygon with one side more than the disk has sectors, so that
//! neighbouring cells never run into each other. The vertical line at which
//! the two polygons would touch is the midline: a disk claims only the
//! points on its own side of it.

use super::config::PuzzleConfig;
use super::Grip;
use crate::util::{lerp, spec_lerp, WEIGHT_FULL};
use vstd::prelude::*;

verus! {

/// The length of the edge of one sector.
pub const UNIT: i64 = 1_000_000;

/// By how many sides the polygon of a disk exceeds its number of sectors.
pub const CONSERVATIVENESS: u32 = 1;

/// How many points the outline of a whole disk is drawn with.
pub const POLYGON_RESOLUTION: u32 = 200;

/// A point, or the size of a rectangle.
#[derive(Debug, Copy, Clone, PartialEq, Eq, Hash, Structural)]
pub struct Point {
    pub x: i64,
    pub y: i64,
}

/// The radius of the circle around a regular polygon with `sides` sides of
/// length [`UNIT`], to the nearest whole number, for 3 to 17 sides.
pub open spec fn spec_polygon_circumradius(sides: int) -> int {
    if sides == 3 {
        577_350
    } else if sides == 4 {
        707_107
    } else if sides == 5 {
        850_651
    } else if sides == 6 {
        1_000_000
    } else if sides == 7 {
        1_152_382
    } else if sides == 8 {
        1_306_563
    } else if sides == 9 {
        1_461_902
    } else if sides == 10 {
        1_618_034
    } else if sides == 11 {
        1_774_733
    } else if sides == 12 {
        1_931_852
    } else if sides == 13 {
        2_089_291
    } else if sides == 14 {
        2_246_980
    } else if sides == 15 {
        2_404_867
    } else if sides == 16 {
        2_562_915
    } else {
        2_721_096
    }
}

/// The radius of the circle inside a regular polygon with `sides` sides of
/// length [`UNIT`], to the nearest whole number, for 3 to 17 sides.
pub open spec fn spec_polygon_apothem(sides: int) -> int {
    if sides == 3 {
        288_675
    } else if sides == 4 {
        500_000
    } else if sides == 5 {
        688_191
    } else if sides == 6 {
        866_025
    } else if sides == 7 {
        1_038_261
    } else if sides == 8 {
        1_207_107
    } else if sides == 9 {
        1_373_739
    } else if sides == 10 {
        1_538_842
    } else if sides == 11 {
        1_702_844
    } else if sides == 12 {
        1_866_025
    } else if sides == 13 {
        2_028_580
    } else if sides == 14 {
        2_190_643
    } else if sides == 15 {
        2_352_315
    } else if sides == 16 {
        2_513_670
    } else {
        2_674_764
    }
}

/// The circle inside a polygon is smaller than the circle around it, and
/// neither is larger than three edges.
pub proof fn lemma_polygon_radii(sides: int)
    ensures
        0 < spec_polygon_apothem(sides) < spec_polygon_circumradius(sides) < 3 * UNIT,
{
}

/// The two radii belong to one polygon with edges of length [`UNIT`]: the
/// radius to a corner, the radius to the middle of an edge and half the edge
/// make a right triangle, within what rounding to whole numbers allows.
pub proof fn lemma_polygon_edge(sides: int)
    ensures
        ({
            let around = spec_polygon_circumradius(sides);
            let inside = spec_polygon_apothem(sides);
            let gap = around * around - inside * inside - (UNIT / 2) * (UNIT / 2);
            -(around + inside) <= gap <= around + inside
        }),
{
}

/// The radius of the circle around a regular polygon with `sides` sides.
fn polygon_circumradius(sides: u32) -> (r: i64)
    requires
        3 <= sides <= 17,
    ensures
        r == spec_polygon_circumradius(sides as int),
{
    match sides {
        3 => 577_350,
        4 => 707_107,
        5 => 850_651,
        6 => 1_000_000,
        7 => 1_152_382,
        8 => 1_306_563,
        9 => 1_461_902,
        10 => 1_618_034,
        11 => 1_774_733,
        12 => 1_931_852,
        13 => 2_089_291,
        14 => 2_246_980,
        15 => 2_404_867,
        16 => 2_562_915,
        _ => 2_721_096,
    }
}

/// The radius of the circle inside a regular polygon with `sides` sides.
fn polygon_apothem(sides: u32) -> (r: i64)
    requires
        3 <= sides <= 17,
    ensures
        r == spec_polygon_apothem(sides as int),
{
    match sides {
        3 => 288_675,
        4 => 500_000,
        5 => 688_191,
        6 => 866_025,
        7 => 1_038_261,
        8 => 1_207_107,
        9 => 1_373_739,
        10 => 1_538_842,
        11 => 1_702_844,
        12 => 1_866_025,
        13 => 2_028_580,
        14 => 2_190_643,
        15 => 2_352_315,
        16 => 2_513_670,
        _ => 2_674_764,
    }
}

impl PuzzleConfig {
    /// The radius of `grip`.
    pub open spec fn spec_radius(self, grip: Grip) -> int {
        spec_polygon_circumradius(self.n(grip) + CONSERVATIVENESS)
    }

    /// The distance from the centre of `grip` to the midline.
    pub open spec fn spec_apothem(self, grip: Grip) -> int {
        spec_polygon_apothem(self.n(grip) + CONSERVATIVENESS)
    }

    /// The height of the puzzle: that of the larger disk.
    pub open spec fn spec_height(self) -> int {
        2 * if self.spec_radius(Grip::A) >= self.spec_radius(Grip::B) {
            self.spec_radius(Grip::A)
        } else {
            self.spec_radius(Grip::B)
        }
    }

    /// The width of the puzzle, from the left edge of disk `A` to the right
    /// edge of disk `B`.
    pub open spec fn spec_width(self) -> int {
        self.spec_radius(Grip::A) + self.spec_radius(Grip::B) + self.spec_apothem(Grip::A)
            + self.spec_apothem(Grip::B)
    }

    /// Where the midline lies.
    pub open spec fn spec_midpoint_x(self) -> int {
        self.spec_radius(Grip::A) + self.spec_apothem(Grip::A)
    }

    /// The `x` of the centre of `grip`.
    pub open spec fn spec_center_x(self, grip: Grip) -> int {
        match grip {
            Grip::A => self.spec_radius(Grip::A),
            Grip::B => self.spec_width() - self.spec_radius(Grip::B),
        }
    }

    /// Whether `grip` claims the point `(x, y)`: the point lies inside the
    /// circle of the disk and on the disk's side of the midline, which itself
    /// belongs to disk `B`.
    pub open spec fn spec_is_hovered(self, grip: Grip, x: int, y: int) -> bool {
        let dx = x - self.spec_center_x(grip);
        let dy = y - self.spec_height() / 2;
        &&& dx * dx + dy * dy < self.spec_radius(grip) * self.spec_radius(grip)
        &&& match grip {
            Grip::A => x < self.spec_midpoint_x(),
            Grip::B => x >= self.spec_midpoint_x(),
        }
    }

    /// The disk that claims the point `(x, y)`, if one does.
    pub open spec fn spec_hovered_grip(self, x: int, y: int) -> Option<Grip> {
        if self.spec_is_hovered(Grip::A, x, y) {
            Some(Grip::A)
        } else if self.spec_is_hovered(Grip::B, x, y) {
            Some(Grip::B)
        } else {
            None
        }
    }

    /// The radius of `grip`.
    pub fn radius(self, grip: Grip) -> (r: i64)
        requires
            self.valid(),
        ensures
            r == self.spec_radius(grip),
            0 < r < 3 * UNIT,
    {
        polygon_circumradius(self.n(grip) + CONSERVATIVENESS)
    }

    /// The square of the radius of `grip`.
    pub fn radius_sq(self, grip: Grip) -> (r: i64)
        requires
            self.valid(),
        ensures
            r == self.spec_radius(grip) * self.spec_radius(grip),
    {
        let r: i64 = self.radius(grip);
        assert(0 <= r * r <= 9 * UNIT * UNIT) by (nonlinear_arith)
            requires
                0 < r < 3 * UNIT,
        ;
        r * r
    }

    /// The distance from the centre of `grip` to the midline.
    pub fn apothem(self, grip: Grip) -> (r: i64)
        requires
            self.valid(),
        ensures
            r == self.spec_apothem(grip),
            0 < r < self.spec_radius(grip),
    {
        polygon_apothem(self.n(grip) + CONSERVATIVENESS)
    }

    /// The centre of `grip`.
    pub fn center(self, grip: Grip) -> (r: Point)
        requires
            self.valid(),
        ensures
            r.x == self.spec_center_x(grip),
            r.y == self.spec_height() / 2,
    {
        match grip {
            Grip::A => Point { x: self.radius(Grip::A), y: self.height() / 2 },
            Grip::B => Point { x: self.width() - self.radius(Grip::B), y: self.height() / 2 },
        }
    }

    /// Whether `grip` claims the point `cursor`.
    pub fn is_hovered(self, grip: Grip, cursor: Point) -> (r: bool)
        requires
            self.valid(),
        ensures
            r == self.spec_is_hovered(grip, cursor.x as int, cursor.y as int),
    {
        let center: Point = self.center(grip);
        let radius: i128 = self.radius(grip) as i128;
        let dx: i128 = cursor.x as i128 - center.x as i128;
        let dy: i128 = cursor.y as i128 - center.y as i128;
        if dx > radius || dx < -radius || dy > radius || dy < -radius {
            assert(dx * dx + dy * dy >= radius * radius) by (nonlinear_arith)
                requires
                    dx > radius || dx < -radius || dy > radius || dy < -radius,
                    radius > 0,
            ;
            return false;
        }
        assert(dx * dx <= radius * radius && dy * dy <= radius * radius && 0 <= dx * dx && 0 <= dy
            * dy && radius * radius < 9 * UNIT * UNIT) by (nonlinear_arith)
            requires
                -radius <= dx <= radius,
                -radius <= dy <= radius,
                0 < radius < 3 * UNIT,
        ;
        let inside: bool = dx * dx + dy * dy < radius * radius;
        inside && match grip {
            Grip::A => cursor.x < self.midpoint_x(),
            Grip::B => cursor.x >= self.midpoint_x(),
        }
    }

    /// The height of the puzzle.
    pub fn height(self) -> (r: i64)
        requires
            self.valid(),
        ensures
            r == self.spec_height(),
            0 < r < 6 * UNIT,
    {
        let a: i64 = self.radius(Grip::A);
        let b: i64 = self.radius(Grip::B);
        if a >= b {
            a * 2
        } else {
            b * 2
        }
    }

    /// The width of the puzzle.
    pub fn width(self) -> (r: i64)
        requires
            self.valid(),
        ensures
            r == self.spec_width(),
            0 < r < 12 * UNIT,
    {
        self.radius(Grip::A) + self.radius(Grip::B) + self.apothem(Grip::A) + self.apothem(Grip::B)
    }

    /// Where the midline lies.
    pub fn midpoint_x(self) -> (r: i64)
        requires
            self.valid(),
        ensures
            r == self.spec_midpoint_x(),
            self.spec_center_x(Grip::A) < r < self.spec_center_x(Grip::B),
    {
        self.radius(Grip::A) + self.apothem(Grip::A)
    }

    /// The point of the midline that lies between the two centres.
    pub fn midpoint(self) -> (r: Point)
        requires
            self.valid(),
        ensures
            r.x == self.spec_midpoint_x(),
            r.y == self.spec_height() / 2,
    {
        Point { x: self.midpoint_x(), y: self.height() / 2 }
    }

    /// The width and height of the puzzle.
    pub fn size(self) -> (r: Point)
        requires
            self.valid(),
        ensures
            r.x == self.spec_width(),
            r.y == self.spec_height(),
    {
        Point { x: self.width(), y: self.height() }
    }

    /// The disk that claims the point `cursor`, if one does. No point is
    /// claimed by both.
    pub fn hovered_grip(self, cursor: Point) -> (r: Option<Grip>)
        requires
            self.valid(),
        ensures
            r == self.spec_hovered_grip(cursor.x as int, cursor.y as int),
            forall|g: Grip|
                r == Some(g) <==> self.spec_is_hovered(g, cursor.x as int, cursor.y as int),
    {
        if self.is_hovered(Grip::A, cursor) {
            Some(Grip::A)
        } else if self.is_hovered(Grip::B, cursor) {
            Some(Grip::B)
        } else {
            None
        }
    }

    /// The width of the gap that the other disk leaves on the line between
    /// the centres, seen from the centre of `grip`.
    pub open spec fn spec_gap(self, grip: Grip) -> int {
        self.spec_apothem(Grip::A) + self.spec_apothem(Grip::B) - self.spec_radius(grip.other())
    }

    /// The radius at which the sectors of `grip` are drawn: that of the disk,
    /// or, where its axis is stationary, halfway between that and the gap that
    /// the other disk leaves.
    pub open spec fn spec_sector_radius(self, grip: Grip) -> int {
        spec_lerp(
            self.spec_radius(grip),
            self.spec_gap(grip),
            if self.axis_stationary(grip) {
                WEIGHT_FULL as int / 2
            } else {
                0
            },
        )
    }

    /// The radius at which the sectors of `grip` are drawn.
    pub fn sector_radius(self, grip: Grip) -> (r: i64)
        requires
            self.valid(),
        ensures
            r == self.spec_sector_radius(grip),
            !self.axis_stationary(grip) ==> r == self.spec_radius(grip),
    {
        let gap: i64 = self.apothem(Grip::A) + self.apothem(Grip::B) - self.radius(grip.other());
        lerp(
            self.radius(grip),
            gap,
            if self.axis_stationary(grip) {
                WEIGHT_FULL / 2
            } else {
                0
            },
        )
    }

    /// Where the label of a sector of `grip` stands before the sector is
    /// turned into place: a third of the way from the centre of the disk to
    /// the midpoint.
    pub fn sector_label_position(self, grip: Grip) -> (r: Point)
        requires
            self.valid(),
        ensures
            r.x == spec_lerp(
                self.spec_center_x(grip),
                self.spec_midpoint_x(),
                WEIGHT_FULL as int / 3,
            ),
            r.y == self.spec_height() / 2,
    {
        let c: Point = self.center(grip);
        let m: Point = self.midpoint();
        Point { x: lerp(c.x, m.x, WEIGHT_FULL / 3), y: lerp(c.y, m.y, WEIGHT_FULL / 3) }
    }

    /// The outline of the shared cell where it lies between the disks: the
    /// arc of disk `A` that bounds it on the right, from top to bottom, then
    /// the arc of disk `B` that bounds it on the left, from bottom to top. The
    /// cells of a disk have this outline turned about the centre of the disk.
    pub fn sphene_points(self) -> (r: Vec<Point>)
        requires
            self.valid(),
        ensures
            r@.len() == POLYGON_RESOLUTION / self.a + POLYGON_RESOLUTION / self.b,
            forall|i: int|
                0 <= i < r@.len() ==> #[trigger] r@[i] == self.spec_sphene_point(i),
    {
        let mut points: Vec<Point> = Vec::new();
        let half_height: i64 = self.height() / 2;
        let res_a: u32 = self.sphene_resolution(Grip::A);
        let res_b: u32 = self.sphene_resolution(Grip::B);
        let mut i: u32 = 0;
        while i < res_a
            invariant
                self.valid(),
                i <= res_a,
                res_a == POLYGON_RESOLUTION / self.a,
                res_a >= 12,
                half_height == self.spec_height() / 2,
                points@.len() == i,
                forall|j: int| 0 <= j < i ==> #[trigger] points@[j] == self.spec_sphene_point(j),
            decreases res_a - i,
        {
            let y: i64 = arc_height(i, res_a);
            let x: i64 = self.center(Grip::A).x + half_chord(self.radius(Grip::A), y);
            points.push(Point { x, y: y + half_height });
            i = i + 1;
        }
        let mut i: u32 = 0;
        while i < res_b
            invariant
                self.valid(),
                i <= res_b,
                res_a == POLYGON_RESOLUTION / self.a,
                res_b == POLYGON_RESOLUTION / self.b,
                res_b >= 12,
                half_height == self.spec_height() / 2,
                points@.len() == res_a + i,
                forall|j: int|
                    0 <= j < res_a + i ==> #[trigger] points@[j] == self.spec_sphene_point(j),
            decreases res_b - i,
        {
            let y: i64 = -arc_height(i, res_b);
            let x: i64 = self.center(Grip::B).x - half_chord(self.radius(Grip::B), y);
            points.push(Point { x, y: y + half_height });
            i = i + 1;
        }
        points
    }

    /// Point `i` of the outline of the shared cell.
    pub open spec fn spec_sphene_point(self, i: int) -> Point {
        let res_a = POLYGON_RESOLUTION as int / (self.a as int);
        let res_b = POLYGON_RESOLUTION as int / (self.b as int);
        if i < res_a {
            let y = spec_arc_height(i, res_a);
            Point {
                x: (self.spec_center_x(Grip::A) + spec_half_chord(self.spec_radius(Grip::A), y))
                    as i64,
                y: (y + self.spec_height() / 2) as i64,
            }
        } else {
            let y = -spec_arc_height(i - res_a, res_b);
            Point {
                x: (self.spec_center_x(Grip::B) - spec_half_chord(self.spec_radius(Grip::B), y))
                    as i64,
                y: (y + self.spec_height() / 2) as i64,
            }
        }
    }

    /// With how many points the arc of one cell of `grip` is drawn.
    pub fn sphene_resolution(self, grip: Grip) -> (r: u32)
        requires
            self.valid(),
        ensures
            r == POLYGON_RESOLUTION / self.n(grip),
            r >= 12,
    {
        proof {
            vstd::arithmetic::div_mod::lemma_div_is_ordered_by_denominator(
                POLYGON_RESOLUTION as int,
                self.n(grip) as int,
                16,
            );
        }
        POLYGON_RESOLUTION / self.n(grip)
    }

    /// Into how many steps the arc of one sector of `grip` is cut.
    pub fn sector_resolution(self, grip: Grip) -> (r: u32)
        requires
            self.valid(),
        ensures
            r == POLYGON_RESOLUTION / ((self.n(grip) + 1) as u32),
            r >= 11,
    {
        proof {
            vstd::arithmetic::div_mod::lemma_div_is_ordered_by_denominator(
                POLYGON_RESOLUTION as int,
                self.n(grip) + 1,
                17,
            );
        }
        POLYGON_RESOLUTION / (self.n(grip) + 1)
    }
}

/// The height of step `i` of `res` steps that run, one edge long in all, from
/// half an edge below a centre line to half an edge above it.
pub open spec fn spec_arc_height(i: int, res: int) -> int {
    i * UNIT / res - UNIT / 2
}

/// The height of step `i` of `res` steps across one edge.
fn arc_height(i: u32, res: u32) -> (y: i64)
    requires
        i < res,
    ensures
        y == spec_arc_height(i as int, res as int),
        -UNIT / 2 <= y < UNIT / 2,
{
    assert(0 <= i * UNIT < res * UNIT) by (nonlinear_arith)
        requires
            0 <= i < res,
    ;
    assert(res * UNIT <= 0xffff_ffff * UNIT) by (nonlinear_arith)
        requires
            res <= 0xffff_ffff,
    ;
    proof {
        vstd::arithmetic::div_mod::lemma_div_pos_is_pos(i * UNIT, res as int);
        vstd::arithmetic::div_mod::lemma_div_is_ordered(i * UNIT, res * UNIT - 1, res as int);
        vstd::arithmetic::div_mod::lemma_fundamental_div_mod_converse(
            res * UNIT - 1,
            res as int,
            UNIT - 1,
            res - 1,
        );
        assert((UNIT - 1) * res + (res - 1) == res * UNIT - 1) by (nonlinear_arith);
    }
    (i as i64) * UNIT / (res as i64) - UNIT / 2
}

/// Whether `r` is the whole number whose square comes nearest to `x` from
/// below.
pub open spec fn is_isqrt(x: int, r: int) -> bool {
    0 <= r && r * r <= x < (r + 1) * (r + 1)
}

/// The whole number whose square comes nearest to `x` from below.
pub open spec fn spec_isqrt(x: int) -> int {
    choose|r: int| is_isqrt(x, r)
}

/// Only one whole number has its square nearest to `x` from below.
pub proof fn lemma_isqrt_unique(x: int, r: int)
    requires
        0 <= r,
        r * r <= x < (r + 1) * (r + 1),
    ensures
        spec_isqrt(x) == r,
{
    let s = spec_isqrt(x);
    assert(is_isqrt(x, r));
    assert(is_isqrt(x, s));
    if s < r {
        assert((s + 1) * (s + 1) <= r * r) by (nonlinear_arith)
            requires
                0 <= s,
                s + 1 <= r,
        ;
    }
    if r < s {
        assert((r + 1) * (r + 1) <= s * s) by (nonlinear_arith)
            requires
                0 <= r,
                r + 1 <= s,
        ;
    }
}

/// The whole number whose square comes nearest to `x` from below.
pub fn isqrt(x: u64) -> (r: u64)
    ensures
        r * r <= x < (r + 1) * (r + 1),
        r == spec_isqrt(x as int),
        r < 0x1_0000_0000,
{
    let mut lo: u64 = 0;
    let mut hi: u64 = 0x1_0000_0000;
    assert(0x1_0000_0000 * 0x1_0000_0000 > x) by (nonlinear_arith)
        requires
            x <= 0xffff_ffff_ffff_ffff,
    ;
    while hi - lo > 1
        invariant
            lo < hi <= 0x1_0000_0000,
            lo * lo <= x < hi * hi,
        decreases hi - lo,
    {
        let mid: u64 = lo + (hi - lo) / 2;
        assert(mid * mid <= 0xffff_ffff * 0xffff_ffff) by (nonlinear_arith)
            requires
                0 <= mid <= 0xffff_ffff,
        ;
        if mid * mid <= x {
            lo = mid;
        } else {
            hi = mid;
        }
    }
    proof {
        lemma_isqrt_unique(x as int, lo as int);
    }
    lo
}

/// Half the width of a circle of radius `radius` at the height `y` above or
/// below its centre, rounded down; nothing where the circle does not reach
/// that height.
pub open spec fn spec_half_chord(radius: int, y: int) -> int {
    if radius * radius >= y * y {
        spec_isqrt(radius * radius - y * y)
    } else {
        0
    }
}

/// Half the width of a circle of radius `radius` at the height `y` above or
/// below its centre.
pub fn half_chord(radius: i64, y: i64) -> (r: i64)
    requires
        0 <= radius < 3 * UNIT,
        -UNIT <= y <= UNIT,
    ensures
        r == spec_half_chord(radius as int, y as int),
        0 <= r <= radius,
{
    assert(0 <= radius * radius <= 9 * UNIT * UNIT && 0 <= y * y <= UNIT * UNIT)
        by (nonlinear_arith)
        requires
            0 <= radius < 3 * UNIT,
            -UNIT <= y <= UNIT,
    ;
    let rr: i64 = radius * radius;
    let yy: i64 = y * y;
    if rr >= yy {
        let root: u64 = isqrt((rr - yy) as u64);
        assert(root <= radius) by (nonlinear_arith)
            requires
                root * root <= rr - yy,
                rr == radius * radius,
                yy >= 0,
                0 <= radius,
                0 <= root,
        ;
        root as i64
    } else {
        0
    }
}

/// No point belongs to both disks. A point on the midline belongs to disk
/// `B` or to neither.
pub proof fn lemma_hover_exclusive(config: PuzzleConfig, x: int, y: int)
    ensures
        !(config.spec_is_hovered(Grip::A, x, y) && config.spec_is_hovered(Grip::B, x, y)),
        x == config.spec_midpoint_x() ==> !config.spec_is_hovered(Grip::A, x, y),
        config.spec_hovered_grip(x, y) == Some(Grip::A) <==> config.spec_is_hovered(Grip::A, x, y),
        config.spec_hovered_grip(x, y) == Some(Grip::B) <==> config.spec_is_hovered(Grip::B, x, y),
{
}

/// The disks lie inside the rectangle that [`PuzzleConfig::size`] gives, their
/// centres at one height, and the midline between the centres.
pub proof fn lemma_layout(config: PuzzleConfig)
    requires
        config.valid(),
    ensures
        config.spec_center_x(Grip::A) - config.spec_radius(Grip::A) == 0,
        config.spec_center_x(Grip::B) + config.spec_radius(Grip::B) == config.spec_width(),
        config.spec_height() / 2 >= config.spec_radius(Grip::A),
        config.spec_height() / 2 >= config.spec_radius(Grip::B),
        config.spec_midpoint_x() - config.spec_center_x(Grip::A) == config.spec_apothem(Grip::A),
        config.spec_center_x(Grip::B) - config.spec_midpoint_x() == config.spec_apothem(Grip::B),
{
}

} // verus!
