//! The queue that plays twists back one after another.
//!
//! A twist changes the pieces at once. What the eye follows is an animation
//! of it: the arrangement as it was before the twist, shown with the disk
//! turning from one angle to another. Animations wait in a queue; the first
//! one plays, and its progress runs from 0 to [`PROGRESS_DONE`].

use super::state::{Arrangement, PuzzleState};
use super::Grip;
use crate::prefs::Preferences;
use std::collections::VecDeque;
use vstd::prelude::*;

verus! {

/// The progress at which an animation is complete.
pub const PROGRESS_DONE: u32 = 1_000_000;

/// What a [`TwistAnimation`] stands for.
#[verifier::ext_equal]
pub struct Motion {
    /// The arrangement before the twist.
    pub state: Arrangement,
    /// The disk that turns.
    pub grip: Grip,
    /// The angle at which the disk is shown when the animation starts.
    pub initial_angle: int,
    /// The angle at which the disk is shown when the animation ends.
    pub final_angle: int,
}

/// The animation of one twist.
#[derive(Debug, PartialEq, Eq)]
pub struct TwistAnimation {
    /// The pieces as they were before the twist, shown while it plays.
    pub state: PuzzleState,
    /// The disk that turns.
    pub grip: Grip,
    /// The angle at which the disk is shown when the animation starts: zero,
    /// or where a drag has left the disk.
    pub initial_angle: i64,
    /// The angle at which the disk is shown when the animation ends.
    pub final_angle: i64,
}

impl View for TwistAnimation {
    type V = Motion;

    open spec fn view(&self) -> Motion {
        Motion {
            state: self.state@,
            grip: self.grip,
            initial_angle: self.initial_angle as int,
            final_angle: self.final_angle as int,
        }
    }
}

impl Clone for TwistAnimation {
    fn clone(&self) -> (r: Self)
        ensures
            r@ == self@,
    {
        TwistAnimation {
            state: self.state.clone(),
            grip: self.grip,
            initial_angle: self.initial_angle,
            final_angle: self.final_angle,
        }
    }
}

/// How far an animation that takes `duration` moves in a time of `delta`, in
/// parts of [`PROGRESS_DONE`]. An animation that takes no time is complete at
/// once.
pub open spec fn spec_progress_step(delta: int, duration: int) -> int {
    if duration <= 0 || delta * PROGRESS_DONE / duration >= PROGRESS_DONE {
        PROGRESS_DONE as int
    } else {
        delta * PROGRESS_DONE / duration
    }
}

/// How far an animation that takes `duration` moves in a time of `delta`.
pub fn progress_step(delta: u64, duration: u64) -> (r: u32)
    ensures
        r == spec_progress_step(delta as int, duration as int),
        r <= PROGRESS_DONE,
        delta >= duration ==> r == PROGRESS_DONE,
{
    if duration == 0 {
        return PROGRESS_DONE;
    }
    assert(delta * PROGRESS_DONE <= u64::MAX * PROGRESS_DONE) by (nonlinear_arith)
        requires
            delta <= u64::MAX,
    ;
    let scaled: u128 = (delta as u128) * (PROGRESS_DONE as u128);
    let step: u128 = scaled / (duration as u128);
    proof {
        vstd::arithmetic::div_mod::lemma_div_pos_is_pos(scaled as int, duration as int);
        lemma_whole_duration_completes(delta as int, duration as int);
    }
    if step >= PROGRESS_DONE as u128 {
        PROGRESS_DONE
    } else {
        step as u32
    }
}

/// A time as long as an animation takes, or longer, completes it.
pub proof fn lemma_whole_duration_completes(delta: int, duration: int)
    requires
        0 <= delta,
    ensures
        0 <= spec_progress_step(delta, duration) <= PROGRESS_DONE,
        delta >= duration ==> spec_progress_step(delta, duration) == PROGRESS_DONE,
{
    if duration > 0 {
        assert(0 <= delta * PROGRESS_DONE) by (nonlinear_arith)
            requires
                0 <= delta,
        ;
        vstd::arithmetic::div_mod::lemma_div_pos_is_pos(delta * PROGRESS_DONE, duration);
        if delta >= duration {
            assert(duration * PROGRESS_DONE <= delta * PROGRESS_DONE) by (nonlinear_arith)
                requires
                    delta >= duration,
            ;
            vstd::arithmetic::div_mod::lemma_div_is_ordered(
                duration * PROGRESS_DONE,
                delta * PROGRESS_DONE,
                duration,
            );
            vstd::arithmetic::div_mod::lemma_div_multiples_vanish(PROGRESS_DONE as int, duration);
        }
    }
}

/// What a [`TwistAnimationState`] stands for: the animations that wait, the
/// playing one first, and how far that one has come.
#[verifier::ext_equal]
pub struct Playback {
    pub queue: Seq<Motion>,
    pub progress: int,
}

impl Playback {
    /// The invariant of the player: progress stays below
    /// [`PROGRESS_DONE`], an idle player has no progress, and every
    /// arrangement that waits to be shown is well formed.
    pub open spec fn wf(self) -> bool {
        &&& 0 <= self.progress < PROGRESS_DONE
        &&& self.queue.len() == 0 ==> self.progress == 0
        &&& forall|i: int| 0 <= i < self.queue.len() ==> (#[trigger] self.queue[i]).state.wf()
    }

    /// The player with nothing to play.
    pub open spec fn idle() -> Playback {
        Playback { queue: Seq::empty(), progress: 0 }
    }

    /// The player with `m` added behind all that wait.
    pub open spec fn push(self, m: Motion) -> Playback {
        Playback { queue: self.queue.push(m), progress: self.progress }
    }

    /// The player with the animations of `ms` added in order.
    pub open spec fn push_all(self, ms: Seq<Motion>) -> Playback
        decreases ms.len(),
    {
        if ms.len() == 0 {
            self
        } else {
            self.push_all(ms.drop_last()).push(ms.last())
        }
    }

    /// The player after a time of `delta`, where one animation takes
    /// `duration`. The playing animation moves on; once complete it leaves the
    /// queue and the next one starts from progress 0. An idle player stays as
    /// it is.
    pub open spec fn proceed(self, delta: int, duration: int) -> Playback {
        if self.queue.len() == 0 {
            self
        } else if self.progress + spec_progress_step(delta, duration) >= PROGRESS_DONE {
            Playback { queue: self.queue.drop_first(), progress: 0 }
        } else {
            Playback {
                queue: self.queue,
                progress: self.progress + spec_progress_step(delta, duration),
            }
        }
    }

    /// Whether anything is playing.
    pub open spec fn is_animating(self) -> bool {
        self.queue.len() > 0
    }
}

/// The player of twist animations.
#[derive(Debug)]
pub struct TwistAnimationState {
    queue: VecDeque<TwistAnimation>,
    progress: u32,
}

impl View for TwistAnimationState {
    type V = Playback;

    closed spec fn view(&self) -> Playback {
        Playback {
            queue: self.queue@.map_values(|a: TwistAnimation| a@),
            progress: self.progress as int,
        }
    }
}

impl Default for TwistAnimationState {
    /// The idle player.
    fn default() -> (r: Self)
        ensures
            r@ == Playback::idle(),
            r.wf(),
    {
        let r = TwistAnimationState { queue: VecDeque::new(), progress: 0 };
        assert(r@ =~= Playback::idle());
        r
    }
}

impl Clone for TwistAnimationState {
    fn clone(&self) -> (r: Self)
        ensures
            r@ == self@,
    {
        let mut queue: VecDeque<TwistAnimation> = VecDeque::new();
        let mut i: usize = 0;
        while i < self.queue.len()
            invariant
                i <= self.queue.len(),
                queue.len() == i,
                forall|j: int| 0 <= j < i ==> queue@[j]@ == self.queue@[j]@,
            decreases self.queue.len() - i,
        {
            queue.push_back(self.queue[i].clone());
            i = i + 1;
        }
        let r = TwistAnimationState { queue, progress: self.progress };
        assert(r@ =~= self@);
        r
    }
}

impl TwistAnimationState {
    /// Whether `self` meets the invariant of the player.
    pub open spec fn wf(&self) -> bool {
        self@.wf()
    }

    /// Adds `anim` behind all animations that wait.
    pub fn push(&mut self, anim: TwistAnimation)
        requires
            old(self).wf(),
            anim.state.wf(),
        ensures
            final(self)@ == old(self)@.push(anim@),
            final(self).wf(),
    {
        self.queue.push_back(anim);
        assert(self@ =~= old(self)@.push(anim@));
    }

    /// Moves the playing animation on by a time of `delta` nanoseconds, where
    /// one animation takes as long as `prefs` says, and says whether anything
    /// is left to play.
    pub fn proceed(&mut self, delta: u64, prefs: &Preferences) -> (still_animating: bool)
        requires
            old(self).wf(),
        ensures
            final(self)@ == old(self)@.proceed(delta as int, prefs.twist_duration as int),
            still_animating == final(self)@.is_animating(),
            final(self).wf(),
    {
        if self.queue.len() == 0 {
            return false;
        }
        let step: u32 = progress_step(delta, prefs.twist_duration);
        if self.progress + step >= PROGRESS_DONE {
            self.progress = 0;
            let _ = self.queue.pop_front();
        } else {
            self.progress = self.progress + step;
        }
        assert(self@ =~= old(self)@.proceed(delta as int, prefs.twist_duration as int));
        self.queue.len() > 0
    }

    /// The playing animation and its progress, if anything plays.
    pub fn current(&self) -> (r: Option<(&TwistAnimation, u32)>)
        requires
            self.wf(),
        ensures
            r is None <==> !self@.is_animating(),
            r matches Some((anim, t)) ==> anim@ == self@.queue[0] && t == self@.progress && t
                < PROGRESS_DONE && anim.state.wf(),
    {
        if self.queue.len() == 0 {
            None
        } else {
            Some((&self.queue[0], self.progress))
        }
    }

    /// How many animations wait, the playing one included.
    pub fn len(&self) -> (r: usize)
        ensures
            r == self@.queue.len(),
    {
        self.queue.len()
    }
}

/// Animations leave the queue in the order in which they entered it, one at a
/// time: after the animations of `ms` are added to an idle player, completing
/// the playing animation `done` times leaves exactly the rest of `ms`, none
/// merged and none dropped.
pub proof fn lemma_plays_in_order(ms: Seq<Motion>, done: nat, duration: int)
    requires
        done <= ms.len(),
        0 <= duration,
    ensures
        Playback::idle().push_all(ms).queue == ms,
        spec_completed(Playback::idle().push_all(ms), done, duration).queue == ms.subrange(
            done as int,
            ms.len() as int,
        ),
        spec_completed(Playback::idle().push_all(ms), done, duration).progress == 0,
    decreases done,
{
    lemma_push_all(Playback::idle(), ms);
    assert(Seq::<Motion>::empty() + ms =~= ms);
    let p = Playback::idle().push_all(ms);
    if done == 0 {
        assert(ms.subrange(0, ms.len() as int) =~= ms);
    } else {
        lemma_plays_in_order(ms, (done - 1) as nat, duration);
        let before = spec_completed(p, (done - 1) as nat, duration);
        assert(before.queue.len() > 0);
        lemma_whole_duration_completes(duration, duration);
        assert(before.queue.drop_first() =~= ms.subrange(done as int, ms.len() as int));
    }
}

/// `p` after the playing animation has run to its end `done` times: each
/// time a whole `duration` passes.
pub open spec fn spec_completed(p: Playback, done: nat, duration: int) -> Playback
    decreases done,
{
    if done == 0 {
        p
    } else {
        spec_completed(p, (done - 1) as nat, duration).proceed(duration, duration)
    }
}

/// Adding animations lengthens the queue at its end and touches nothing else.
pub proof fn lemma_push_all(p: Playback, ms: Seq<Motion>)
    ensures
        p.push_all(ms).queue == p.queue + ms,
        p.push_all(ms).progress == p.progress,
    decreases ms.len(),
{
    if ms.len() == 0 {
        assert(p.queue + ms =~= p.queue);
    } else {
        lemma_push_all(p, ms.drop_last());
        assert(p.queue + ms =~= (p.queue + ms.drop_last()).push(ms.last()));
    }
}

} // verus!
