//! What the user can set about how the puzzle behaves and looks.

use vstd::prelude::*;

verus! {

/// The user's preferences.
#[derive(Debug, Copy, Clone, PartialEq, Eq, Structural)]
pub struct Preferences {
    /// How long the animation of one twist takes, in nanoseconds.
    pub twist_duration: u64,
    /// Whether sectors and pieces are labelled.
    pub show_labels: bool,
    /// Whether a click turns the clicked sector to the shared cell, rather
    /// than turning the disk by one sector.
    pub sector_click_mode: bool,
}

impl Default for Preferences {
    /// A fifth of a second per twist, labels shown, plain clicks.
    fn default() -> (r: Self)
        ensures
            r == (Preferences {
                twist_duration: 200_000_000,
                show_labels: true,
                sector_click_mode: false,
            }),
    {
        Preferences { twist_duration: 200_000_000, show_labels: true, sector_click_mode: false }
    }
}

} // verus!
