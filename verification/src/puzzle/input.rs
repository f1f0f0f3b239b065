//! From what the user does to the twists that are meant.
//!
//! Keys, clicks and the scroll wheel each stand for a twist by whole sectors.
//! A drag turns a disk freely; when it is let go, the disk goes to the nearest
//! whole sector. Nothing here changes the puzzle: these functions only say
//! which twist is meant.

use super::geometry::Point;
use super::{Grip, Twist, TwistDir};
use crate::angle::{nearest_sector, spec_nearest_sector, HALF_TURN};
use vstd::prelude::*;

verus! {

/// The largest angle that input can name: two full turns. A drag is the
/// angle between two directions, so it never comes near this.
pub const MAX_INPUT_ANGLE: i64 = 1_441_440;

/// A key that twists a disk by one sector.
#[derive(Debug, Copy, Clone, PartialEq, Eq, Hash, Structural)]
pub enum TwistKey {
    D,
    F,
    J,
    K,
}

impl TwistKey {
    /// The twist that the key makes: `D` and `F` turn disk `A`, `J` and `K`
    /// turn disk `B`, the first of each pair counterclockwise and the second
    /// clockwise, by one sector.
    pub open spec fn spec_twist(self) -> Twist {
        match self {
            TwistKey::D => Twist { grip: Grip::A, direction: TwistDir::Ccw, amount: 1 },
            TwistKey::F => Twist { grip: Grip::A, direction: TwistDir::Cw, amount: 1 },
            TwistKey::J => Twist { grip: Grip::B, direction: TwistDir::Ccw, amount: 1 },
            TwistKey::K => Twist { grip: Grip::B, direction: TwistDir::Cw, amount: 1 },
        }
    }

    /// The twist that the key makes.
    #[verifier::when_used_as_spec(spec_twist)]
    pub fn twist(self) -> (r: Twist)
        ensures
            r == self.spec_twist(),
    {
        match self {
            TwistKey::D => Twist { grip: Grip::A, direction: TwistDir::Ccw, amount: 1 },
            TwistKey::F => Twist { grip: Grip::A, direction: TwistDir::Cw, amount: 1 },
            TwistKey::J => Twist { grip: Grip::B, direction: TwistDir::Ccw, amount: 1 },
            TwistKey::K => Twist { grip: Grip::B, direction: TwistDir::Cw, amount: 1 },
        }
    }
}

/// One notch of the scroll wheel.
#[derive(Debug, Copy, Clone, PartialEq, Eq, Hash, Structural)]
pub enum ScrollNotch {
    /// Away from the user: counterclockwise.
    Up,
    /// Towards the user: clockwise.
    Down,
}

impl ScrollNotch {
    /// What the notch counts: 1 up, -1 down.
    pub open spec fn value(self) -> int {
        match self {
            ScrollNotch::Up => 1,
            ScrollNotch::Down => -1,
        }
    }
}

/// What the pointer and the keys did in one frame.
#[derive(Debug, PartialEq, Eq)]
pub struct FrameInput {
    /// Where the pointer is, in the lengths of the puzzle and seen from its
    /// top left corner, if it is over the puzzle at all.
    pub pointer: Option<Point>,
    /// The twist keys that were pressed, in order.
    pub keys: Vec<TwistKey>,
    /// Whether a drag began in this frame.
    pub drag_started: bool,
    /// Whether a drag ended in this frame.
    pub drag_stopped: bool,
    /// Whether a drag is under way.
    pub dragged: bool,
    /// The angle from the direction in which the drag began to the direction
    /// of the pointer, both seen from the centre of the hovered disk.
    pub drag_angle: i64,
    /// Whether the primary button was clicked.
    pub clicked: bool,
    /// Whether the secondary button was clicked.
    pub secondary_clicked: bool,
    /// The direction of the pointer, seen from the centre of the hovered disk.
    pub pointer_angle: i64,
    /// The notches by which the wheel was scrolled, in order.
    pub scroll: Vec<ScrollNotch>,
}

impl FrameInput {
    /// Whether the angles lie within two turns.
    pub open spec fn wf(&self) -> bool {
        &&& -MAX_INPUT_ANGLE <= self.drag_angle <= MAX_INPUT_ANGLE
        &&& -MAX_INPUT_ANGLE <= self.pointer_angle <= MAX_INPUT_ANGLE
    }

    /// Whether the angles lie within two turns.
    pub fn is_wf(&self) -> (r: bool)
        ensures
            r == self.wf(),
    {
        -MAX_INPUT_ANGLE <= self.drag_angle && self.drag_angle <= MAX_INPUT_ANGLE
            && -MAX_INPUT_ANGLE <= self.pointer_angle && self.pointer_angle <= MAX_INPUT_ANGLE
    }

    /// A frame in which nothing happened.
    pub fn idle() -> (r: Self)
        ensures
            r.wf(),
            r.pointer is None,
            r.keys@.len() == 0,
            r.scroll@.len() == 0,
            !r.drag_started && !r.drag_stopped && !r.dragged && !r.clicked && !r.secondary_clicked,
            r.drag_angle == 0 && r.pointer_angle == 0,
    {
        FrameInput {
            pointer: None,
            keys: Vec::new(),
            drag_started: false,
            drag_stopped: false,
            dragged: false,
            drag_angle: 0,
            clicked: false,
            secondary_clicked: false,
            pointer_angle: 0,
            scroll: Vec::new(),
        }
    }
}

/// The notches of `notches` summed: those up less those down.
pub open spec fn spec_net_scroll(notches: Seq<ScrollNotch>) -> int
    decreases notches.len(),
{
    if notches.len() == 0 {
        0
    } else {
        spec_net_scroll(notches.drop_last()) + notches.last().value()
    }
}

/// The notches of `notches` summed: those up less those down.
pub fn net_scroll(notches: &Vec<ScrollNotch>) -> (r: i128)
    ensures
        r == spec_net_scroll(notches@),
        -notches@.len() <= r <= notches@.len(),
{
    let mut net: i128 = 0;
    let mut i: usize = 0;
    while i < notches.len()
        invariant
            i <= notches.len(),
            net == spec_net_scroll(notches@.subrange(0, i as int)),
            -i <= net <= i,
        decreases notches.len() - i,
    {
        proof {
            assert(notches@.subrange(0, i + 1).drop_last() =~= notches@.subrange(0, i as int));
        }
        match notches[i] {
            ScrollNotch::Up => {
                net = net + 1;
            },
            ScrollNotch::Down => {
                net = net - 1;
            },
        }
        i = i + 1;
    }
    assert(notches@.subrange(0, i as int) =~= notches@);
    net
}

/// The twist of `grip` that a signed count of sectors stands for:
/// counterclockwise where it is positive, clockwise where it is negative,
/// none where it is zero. A count beyond what a twist can hold stands for the
/// largest twist.
pub open spec fn spec_signed_twist(grip: Grip, count: int) -> Option<Twist> {
    if count > 0 {
        Some(
            Twist {
                grip,
                direction: TwistDir::Ccw,
                amount: if count > u32::MAX {
                    u32::MAX
                } else {
                    count as u32
                },
            },
        )
    } else if count < 0 {
        Some(
            Twist {
                grip,
                direction: TwistDir::Cw,
                amount: if -count > u32::MAX {
                    u32::MAX
                } else {
                    (-count) as u32
                },
            },
        )
    } else {
        None
    }
}

/// The twist of `grip` that a signed count of sectors stands for.
pub fn signed_twist(grip: Grip, count: i128) -> (r: Option<Twist>)
    requires
        count > i128::MIN,
    ensures
        r == spec_signed_twist(grip, count as int),
{
    if count > 0 {
        let amount: u32 = if count > u32::MAX as i128 {
            u32::MAX
        } else {
            count as u32
        };
        Some(Twist { grip, direction: TwistDir::Ccw, amount })
    } else if count < 0 {
        let amount: u32 = if -count > u32::MAX as i128 {
            u32::MAX
        } else {
            (-count) as u32
        };
        Some(Twist { grip, direction: TwistDir::Cw, amount })
    } else {
        None
    }
}

/// The sectors by which plain clicks and the scroll wheel turn a disk in one
/// frame: one for a click, one back for a secondary click, and one for each
/// notch, all summed. In sector click mode clicks do not count here.
pub open spec fn spec_click_scroll_count(
    clicked: bool,
    secondary_clicked: bool,
    sector_click_mode: bool,
    notches: Seq<ScrollNotch>,
) -> int {
    (if !sector_click_mode && clicked {
        1int
    } else {
        0int
    }) - (if !sector_click_mode && secondary_clicked {
        1int
    } else {
        0int
    }) + spec_net_scroll(notches)
}

/// The one twist of `grip` that plain clicks and the scroll wheel make in one
/// frame, if they make any.
pub fn click_scroll_twist(
    grip: Grip,
    clicked: bool,
    secondary_clicked: bool,
    sector_click_mode: bool,
    scroll: &Vec<ScrollNotch>,
) -> (r: Option<Twist>)
    ensures
        r == spec_signed_twist(
            grip,
            spec_click_scroll_count(clicked, secondary_clicked, sector_click_mode, scroll@),
        ),
{
    let mut count: i128 = net_scroll(scroll);
    assert(scroll@.len() == scroll.len());
    if !sector_click_mode && clicked {
        count = count + 1;
    }
    if !sector_click_mode && secondary_clicked {
        count = count - 1;
    }
    signed_twist(grip, count)
}

/// The twist that a click on a sector makes in sector click mode: the one
/// that turns the disk by as many sectors as lie nearest to the direction of
/// the click; on disk `B`, which faces the other way, that direction is
/// counted from the opposite side.
pub open spec fn spec_sector_click_twist(grip: Grip, n: int, pointer_angle: int) -> Option<Twist> {
    spec_signed_twist(
        grip,
        spec_nearest_sector(
            if grip == Grip::B {
                pointer_angle + HALF_TURN
            } else {
                pointer_angle
            },
            n,
        ),
    )
}

/// The twist that a click on a sector makes in sector click mode.
pub fn sector_click_twist(grip: Grip, n: u32, pointer_angle: i64) -> (r: Option<Twist>)
    requires
        2 <= n <= 16,
        -MAX_INPUT_ANGLE <= pointer_angle <= MAX_INPUT_ANGLE,
    ensures
        r == spec_sector_click_twist(grip, n as int, pointer_angle as int),
{
    let angle: i64 = if grip == Grip::B {
        pointer_angle + HALF_TURN
    } else {
        pointer_angle
    };
    signed_twist(grip, nearest_sector(angle, n) as i128)
}

/// What letting go of a drag that holds `grip` at `angle` commits: the twist
/// by the whole number of sectors nearest to `angle`, clockwise for an angle
/// that is not negative and counterclockwise else, and the angle at which its
/// animation starts, which is where the drag left the disk.
pub open spec fn spec_drag_release(grip: Grip, n: int, angle: int) -> (Twist, int) {
    let sectors = spec_nearest_sector(angle, n);
    if sectors < 0 {
        (Twist { grip, direction: TwistDir::Ccw, amount: (-sectors) as u32 }, -angle)
    } else {
        (Twist { grip, direction: TwistDir::Cw, amount: sectors as u32 }, -angle)
    }
}

/// What letting go of a drag that holds `grip` at `angle` commits. The twist
/// may be by no sectors at all; its animation then brings the disk back to
/// rest.
pub fn drag_release(grip: Grip, n: u32, angle: i64) -> (r: (Twist, i64))
    requires
        2 <= n <= 16,
        -MAX_INPUT_ANGLE <= angle <= MAX_INPUT_ANGLE,
    ensures
        r.0 == spec_drag_release(grip, n as int, angle as int).0,
        r.1 == spec_drag_release(grip, n as int, angle as int).1,
        r.0.amount <= 32,
{
    let sectors: i64 = nearest_sector(angle, n);
    proof {
        crate::angle::lemma_nearest_sector(angle as int, n as int);
        crate::angle::lemma_sector_angle(n as int);
        let w = crate::angle::spec_sector_angle(n as int);
        if sectors > 32 {
            assert(sectors * w >= 33 * w) by (nonlinear_arith)
                requires
                    sectors >= 33,
                    w >= 0,
            ;
        }
        if sectors < -32 {
            assert(sectors * w <= -33 * w) by (nonlinear_arith)
                requires
                    sectors <= -33,
                    w >= 0,
            ;
        }
    }
    if sectors < 0 {
        (Twist { grip, direction: TwistDir::Ccw, amount: (-sectors) as u32 }, -angle)
    } else {
        (Twist { grip, direction: TwistDir::Cw, amount: sectors as u32 }, -angle)
    }
}

} // verus!
