//! Sphenic Biaxe: a twisty puzzle made of two overlapping disks.
//!
//! Two disks, grips `A` and `B`, are cut into sectors and overlap in exactly
//! one cell. Each disk turns about its own centre by whole sectors; the piece
//! in the shared cell travels with whichever disk turns. This crate holds the
//! puzzle's rules: the piece arrangement and its twists, the naming and
//! colouring of pieces, the queue that plays twists back as animations, and
//! the reading of pointer and key input as twists. Every function is
//! verified against the contract written on it, but for the few calls into
//! other crates, which [`trusted`] lists with what is taken on trust.
//!
//! All numbers are whole, so that all arithmetic is exact: angles count in
//! [`angle::TURN`]ths of a full turn, lengths in [`puzzle::geometry::UNIT`]ths
//! of the edge of a sector, times in nanoseconds, and progress, weights and
//! lightness in parts of a whole.

pub mod angle;
pub mod prefs;
pub mod puzzle;
pub mod trusted;
pub mod util;

pub use prefs::Preferences;
pub use puzzle::config::PuzzleConfig;
pub use puzzle::state::PuzzleState;
pub use puzzle::view::PuzzleView;
pub use puzzle::Grip;
pub use puzzle::Twist;
pub use puzzle::TwistDir;
