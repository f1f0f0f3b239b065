//! The configuration of a puzzle: how many sectors each disk has, and
//! whether a disk's centre stays put when the disk turns.

use super::Grip;
use vstd::prelude::*;

verus! {

/// The fewest sectors a disk can have.
pub const MIN_SECTORS: u32 = 2;

/// The most sectors a disk can have.
pub const MAX_SECTORS: u32 = 16;

/// The two disk sizes and the two axis flags. Everything else about the
/// puzzle's layout and appearance is derived from these four values.
#[derive(Debug, Copy, Clone, PartialEq, Eq, Structural)]
pub struct PuzzleConfig {
    /// Number of sectors on disk `A`.
    pub a: u32,
    /// Number of sectors on disk `B`.
    pub b: u32,
    /// Whether the sector colouring of disk `A` stays in place when it turns.
    pub a_axis_stationary: bool,
    /// Whether the sector colouring of disk `B` stays in place when it turns.
    pub b_axis_stationary: bool,
}

impl Default for PuzzleConfig {
    /// Five sectors against two; the axis of the smaller disk is stationary.
    fn default() -> (r: Self)
        ensures
            r == PuzzleConfig::spec_default(),
            r.valid(),
    {
        PuzzleConfig { a: 5, b: 2, a_axis_stationary: false, b_axis_stationary: true }
    }
}

impl PuzzleConfig {
    /// The configuration of a puzzle for which none is given.
    pub open spec fn spec_default() -> PuzzleConfig {
        PuzzleConfig { a: 5, b: 2, a_axis_stationary: false, b_axis_stationary: true }
    }

    /// Whether both disk sizes lie in the supported range.
    pub open spec fn valid(self) -> bool {
        &&& MIN_SECTORS <= self.a <= MAX_SECTORS
        &&& MIN_SECTORS <= self.b <= MAX_SECTORS
    }

    /// Number of sectors on `grip`.
    pub open spec fn spec_n(self, grip: Grip) -> u32 {
        match grip {
            Grip::A => self.a,
            Grip::B => self.b,
        }
    }

    /// Number of sectors on `grip`.
    #[verifier::when_used_as_spec(spec_n)]
    pub fn n(self, grip: Grip) -> (r: u32)
        ensures
            r == self.spec_n(grip),
    {
        match grip {
            Grip::A => self.a,
            Grip::B => self.b,
        }
    }

    /// Whether the sector colouring of `grip` stays in place when it turns.
    pub open spec fn spec_axis_stationary(self, grip: Grip) -> bool {
        match grip {
            Grip::A => self.a_axis_stationary,
            Grip::B => self.b_axis_stationary,
        }
    }

    /// Whether the sector colouring of `grip` stays in place when it turns.
    #[verifier::when_used_as_spec(spec_axis_stationary)]
    pub fn axis_stationary(self, grip: Grip) -> (r: bool)
        ensures
            r == self.spec_axis_stationary(grip),
    {
        match grip {
            Grip::A => self.a_axis_stationary,
            Grip::B => self.b_axis_stationary,
        }
    }

    /// The number of the piece that lies in cell `i` of `grip` when the
    /// puzzle is solved. It is also the number under which the colour of
    /// sector `i` of `grip` is found.
    pub open spec fn spec_color_index_in_grip(self, grip: Grip, i: u32) -> u32 {
        if grip == Grip::B && i > 0 {
            (i + self.a - 1) as u32
        } else {
            i
        }
    }

    /// The number of the piece that lies in cell `i` of `grip` when the
    /// puzzle is solved, which is the number under which the colour of sector
    /// `i` of `grip` is found.
    pub fn color_index_in_grip(self, grip: Grip, i: u32) -> (r: u32)
        requires
            self.valid(),
            i < self.n(grip),
        ensures
            r == self.spec_color_index_in_grip(grip, i),
            r == super::state::solved_piece(self.a as int, grip, i as int),
            r < self.a + self.b - 1,
    {
        if grip == Grip::B && i > 0 {
            i + self.a - 1
        } else {
            i
        }
    }

    /// Whether `self` holds supported disk sizes.
    pub fn is_valid(self) -> (r: bool)
        ensures
            r == self.valid(),
    {
        MIN_SECTORS <= self.a && self.a <= MAX_SECTORS && MIN_SECTORS <= self.b && self.b
            <= MAX_SECTORS
    }
}

} // verus!
