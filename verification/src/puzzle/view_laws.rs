//! What holds of every puzzle in play.

use super::config::PuzzleConfig;
use super::state::Arrangement;
use super::twist_anim::{lemma_whole_duration_completes, Playback};
use super::view::Session;
use super::Twist;
use vstd::prelude::*;

verus! {

/// A twist moves the pieces at once, whatever the animations do: the pieces
/// after it are the pieces before it, twisted, and whether the puzzle counts
/// as solved goes by them alone. What is shown on an idle puzzle is still the
/// arrangement before the twist.
pub proof fn lemma_twist_is_immediate(s: Session, t: Twist, initial_angle: int)
    requires
        s.state is Some,
    ensures
        s.twist_with_initial_angle(t, initial_angle).state == Some(s.state->0.twist(t)),
        s.twist_with_initial_angle(t, initial_angle).is_solved() == s.state->0.twist(t).is_solved(
            s.config.a as int,
            s.config.b as int,
        ),
        !s.animation.is_animating() ==> s.twist_with_initial_angle(t, initial_angle).visual_state()
            == s.state,
        s.twist_with_initial_angle(t, initial_angle).animation.queue.len()
            == s.animation.queue.len() + 1,
{
}

/// Two twists made one after the other wait as two animations, the first
/// showing the arrangement before both and the second the arrangement
/// between them, while the pieces have made both.
pub proof fn lemma_twists_wait_apart(s: Session, t1: Twist, t2: Twist)
    requires
        s.state is Some,
        !s.animation.is_animating(),
    ensures
        s.twist(t1).twist(t2).state == Some(s.state->0.twist(t1).twist(t2)),
        s.twist(t1).twist(t2).animation.queue.len() == 2,
        s.twist(t1).twist(t2).animation.queue[0].state == s.state->0,
        s.twist(t1).twist(t2).animation.queue[0].grip == t1.grip,
        s.twist(t1).twist(t2).animation.queue[0].final_angle == s.final_angle(t1, 0),
        s.twist(t1).twist(t2).animation.queue[1].state == s.state->0.twist(t1),
        s.twist(t1).twist(t2).animation.queue[1].grip == t2.grip,
        s.twist(t1).twist(t2).animation.queue[1].final_angle == s.final_angle(t2, 0),
{
}

/// The passing of time moves no piece: a frame changes neither the pieces
/// nor whether the puzzle counts as solved.
pub proof fn lemma_frames_keep_pieces(s: Session, now: u64, duration: u64)
    ensures
        s.advance(now, duration).state == s.state,
        s.advance(now, duration).is_solved() == s.is_solved(),
        s.advance(now, duration).was_scrambled == s.was_scrambled,
        s.advance(now, duration).config == s.config,
{
}

/// Once the animation of the last twist has run to its end, what is shown is
/// what is.
pub proof fn lemma_shown_catches_up(s: Session, now: u64, duration: u64)
    requires
        s.animation.wf(),
        s.animation.queue.len() == 1,
        s.frame_delta(now) >= duration,
    ensures
        !s.advance(now, duration).animation.is_animating(),
        s.advance(now, duration).visual_state() == s.state,
        s.advance(now, duration).last_frame_time is None,
{
    lemma_whole_duration_completes(s.frame_delta(now), duration as int);
}

/// A puzzle that was never scrambled is not announced as solved, though its
/// pieces are in solved order from the start.
pub proof fn lemma_fresh_is_not_announced(config: PuzzleConfig)
    requires
        config.valid(),
    ensures
        Session::fresh(config).with_state().is_solved(),
        !Session::fresh(config).with_state().solved_after_scramble(),
        !Session::fresh(config).is_solved(),
{
    super::twist_laws::lemma_solved_is_solved(config.a as int, config.b as int);
}

/// A reset, and any change of configuration, leaves no pieces, no animation,
/// no drag and no mark of a scramble behind: only the time of the last frame
/// is kept.
pub proof fn lemma_reset_discards(s: Session, config: PuzzleConfig)
    ensures
        s.reset() == s.rest_of(s.config),
        config != s.config ==> s.set_config(config) == s.rest_of(config),
        s.set_config(s.config) == s,
{
}

/// While a drag is under way over the puzzle no animation plays: the drag
/// drops them all.
pub proof fn lemma_drag_cancels_animations(
    s: Session,
    input: super::input::FrameInput,
    hovered: Option<super::Grip>,
)
    requires
        input.dragged,
        input.pointer is Some,
    ensures
        s.track_drag(input, hovered).animation == Playback::idle(),
        s.track_drag(input, hovered).state == s.state,
{
}

} // verus!
