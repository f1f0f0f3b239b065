//! The puzzle itself: its two grips, its pieces and how they move.

use vstd::prelude::*;

pub mod color;
pub mod config;
pub mod geometry;
pub mod input;
pub mod names;
pub mod rotation;
pub mod state;
pub mod twist_anim;
pub mod twist_laws;
pub mod view;
pub mod view_laws;

verus! {

/// One of the two disks.
#[derive(Debug, Copy, Clone, PartialEq, Eq, Hash, Structural)]
pub enum Grip {
    A,
    B,
}

impl Grip {
    /// The grip that `self` is not.
    pub open spec fn spec_other(self) -> Grip {
        match self {
            Grip::A => Grip::B,
            Grip::B => Grip::A,
        }
    }

    /// The grip that `self` is not.
    #[verifier::when_used_as_spec(spec_other)]
    pub fn other(self) -> (r: Grip)
        ensures
            r == self.spec_other(),
            r != self,
    {
        match self {
            Grip::A => Grip::B,
            Grip::B => Grip::A,
        }
    }
}

/// The sense of a twist.
#[derive(Debug, Copy, Clone, PartialEq, Eq, Hash, Structural)]
pub enum TwistDir {
    /// Clockwise
    Cw,
    /// Counterclockwise
    Ccw,
}

impl TwistDir {
    /// The sign that a twist in this sense gives to an angle: `-1` clockwise,
    /// `1` counterclockwise.
    pub open spec fn spec_sign(self) -> int {
        match self {
            TwistDir::Cw => -1,
            TwistDir::Ccw => 1,
        }
    }

    /// The sign that a twist in this sense gives to an angle.
    pub fn sign(self) -> (r: i64)
        ensures
            r == self.spec_sign(),
    {
        match self {
            TwistDir::Cw => -1,
            TwistDir::Ccw => 1,
        }
    }

    /// The opposite sense.
    pub open spec fn spec_reverse(self) -> TwistDir {
        match self {
            TwistDir::Cw => TwistDir::Ccw,
            TwistDir::Ccw => TwistDir::Cw,
        }
    }

    /// The opposite sense.
    #[verifier::when_used_as_spec(spec_reverse)]
    pub fn reverse(self) -> (r: TwistDir)
        ensures
            r == self.spec_reverse(),
    {
        match self {
            TwistDir::Cw => TwistDir::Ccw,
            TwistDir::Ccw => TwistDir::Cw,
        }
    }
}

/// One twist of one disk: which disk, in which sense, by how many sectors.
#[derive(Debug, Copy, Clone, PartialEq, Eq, Hash, Structural)]
pub struct Twist {
    pub grip: Grip,
    pub direction: TwistDir,
    pub amount: u32,
}

} // verus!
