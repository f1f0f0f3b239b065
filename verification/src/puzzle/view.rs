//! One puzzle in play: its configuration, its pieces, the animations that
//! wait to be shown, and what the pointer is doing.

use super::config::PuzzleConfig;
use super::geometry::Point;
use super::input::{
    click_scroll_twist, drag_release, sector_click_twist, spec_click_scroll_count,
    spec_drag_release, spec_sector_click_twist, spec_signed_twist, FrameInput, TwistKey,
    MAX_INPUT_ANGLE,
};
use super::state::{Arrangement, PuzzleState};
use super::twist_anim::{Motion, Playback, TwistAnimation, TwistAnimationState, PROGRESS_DONE};
use super::{Grip, Twist, TwistDir};
use crate::angle::{short_way, spec_short_way, spec_twist_angle, twist_angle};
use crate::prefs::Preferences;
use crate::trusted::{hash_instant, native_bytes, now, random_below, rng_from_seed};
use rand::rngs::StdRng;
use std::collections::hash_map::DefaultHasher;
use std::hash::Hasher;
use vstd::prelude::*;

verus! {

/// The time that is taken to have passed since the last frame when no frame
/// came before: a 120th of a second, in nanoseconds.
pub const ASSUMED_FRAME_TIME: u64 = 8_333_333;

/// How many times a scramble twists each disk.
pub const SCRAMBLE_ROUNDS: u32 = 500;

/// What a [`PuzzleView`] stands for.
#[verifier::ext_equal]
pub struct Session {
    /// The puzzle's configuration.
    pub config: PuzzleConfig,
    /// The pieces, once the puzzle has been made.
    pub state: Option<Arrangement>,
    /// Whether the pieces come from a scramble.
    pub was_scrambled: bool,
    /// The animations that wait to be shown.
    pub animation: Playback,
    /// When the last frame of a running animation was shown.
    pub last_frame_time: Option<u64>,
    /// Where the drag that is under way began.
    pub drag_start: Option<Point>,
    /// The disk that a drag holds and the angle by which it has turned it.
    pub drag_angle_offset: Option<(Grip, int)>,
}

impl Session {
    /// The invariant of a puzzle in play: the configuration is supported, the
    /// pieces and every arrangement that waits to be shown are well formed,
    /// hold each piece once and have the sizes of the configuration, and a
    /// drag holds its disk within two turns.
    pub open spec fn wf(self) -> bool {
        &&& self.config.valid()
        &&& self.state matches Some(s) ==> self.fits(s)
        &&& self.animation.wf()
        &&& forall|i: int|
            0 <= i < self.animation.queue.len() ==> self.fits(
                (#[trigger] self.animation.queue[i]).state,
            )
        &&& self.drag_angle_offset matches Some((_, angle)) ==> -MAX_INPUT_ANGLE <= angle
            <= MAX_INPUT_ANGLE
    }

    /// Whether `s` is a well-formed arrangement of the sizes of the
    /// configuration in which each piece lies once.
    pub open spec fn fits(self, s: Arrangement) -> bool {
        &&& s.wf()
        &&& s.is_permutation()
        &&& s.n(Grip::A) == self.config.a
        &&& s.n(Grip::B) == self.config.b
    }

    /// A puzzle of `config` that has not been made yet.
    pub open spec fn fresh(config: PuzzleConfig) -> Session {
        Session {
            config,
            state: None,
            was_scrambled: false,
            animation: Playback::idle(),
            last_frame_time: None,
            drag_start: None,
            drag_angle_offset: None,
        }
    }

    /// What is left of `self` when all but the time of the last frame is
    /// discarded and the configuration is `config`.
    pub open spec fn rest_of(self, config: PuzzleConfig) -> Session {
        Session { last_frame_time: self.last_frame_time, ..Session::fresh(config) }
    }

    /// `self` with its pieces, animations and drag discarded.
    pub open spec fn reset(self) -> Session {
        Session {
            state: None,
            was_scrambled: false,
            animation: Playback::idle(),
            drag_start: None,
            drag_angle_offset: None,
            ..self
        }
    }

    /// `self` with `config` in place of its configuration; where that is a
    /// change, everything else is discarded.
    pub open spec fn set_config(self, config: PuzzleConfig) -> Session {
        if config == self.config {
            self
        } else {
            Session { config, ..self }.reset()
        }
    }

    /// `self` with its pieces made, in solved order, where it had none.
    pub open spec fn with_state(self) -> Session {
        match self.state {
            Some(_) => self,
            None => Session {
                state: Some(Arrangement::solved(self.config.a as int, self.config.b as int)),
                ..self
            },
        }
    }

    /// Whether the pieces are in solved order. A puzzle that has not been made
    /// does not count as solved.
    pub open spec fn is_solved(self) -> bool {
        self.state matches Some(s) && s.is_solved(self.config.a as int, self.config.b as int)
    }

    /// The angle at which the animation of a twist ends: the angle of the
    /// twist, taken the short way round from where the animation starts.
    pub open spec fn final_angle(self, t: Twist, initial_angle: int) -> int {
        spec_short_way(
            initial_angle,
            spec_twist_angle(
                self.config.n(t.grip) as int,
                t.direction.spec_sign(),
                t.amount as int,
            ),
        )
    }

    /// `self` after the twist `t`, whose animation starts at `initial_angle`.
    /// The pieces move at once; the arrangement before the twist joins the
    /// animations that wait. Nothing happens to a puzzle that has not been
    /// made.
    pub open spec fn twist_with_initial_angle(self, t: Twist, initial_angle: int) -> Session {
        match self.state {
            Some(s) => Session {
                state: Some(s.twist(t)),
                animation: self.animation.push(
                    Motion {
                        state: s,
                        grip: t.grip,
                        initial_angle,
                        final_angle: self.final_angle(t, initial_angle),
                    },
                ),
                ..self
            },
            None => self,
        }
    }

    /// `self` after the twist `t`, whose animation starts at rest.
    pub open spec fn twist(self, t: Twist) -> Session {
        self.twist_with_initial_angle(t, 0)
    }

    /// The time that has passed since the last frame, at the time `now`.
    pub open spec fn frame_delta(self, now: u64) -> int {
        match self.last_frame_time {
            Some(then) => if now >= then {
                now - then
            } else {
                0
            },
            None => ASSUMED_FRAME_TIME as int,
        }
    }

    /// `self` after the frame at the time `now`, where one animation takes
    /// `duration`: the animations move on, and the time of the frame is kept
    /// for as long as one plays.
    pub open spec fn advance(self, now: u64, duration: u64) -> Session {
        let animation = self.animation.proceed(self.frame_delta(now), duration as int);
        Session {
            animation,
            last_frame_time: if animation.is_animating() {
                Some(now)
            } else {
                None
            },
            ..self
        }
    }

    /// The disk that the pointer is on: the one that claims the point where
    /// the drag under way began, or else the point where the pointer is.
    pub open spec fn hovered_grip(self, pointer: Option<Point>) -> Option<Grip> {
        match self.drag_anchor(false, pointer) {
            Some(p) => self.config.spec_hovered_grip(p.x as int, p.y as int),
            None => None,
        }
    }

    /// The point from which a drag is measured in a frame: where the pointer
    /// is, if the drag begins in this frame or none is under way, else where
    /// the drag began.
    pub open spec fn drag_anchor(
        self,
        drag_started: bool,
        pointer: Option<Point>,
    ) -> Option<Point> {
        if drag_started || self.drag_start is None {
            pointer
        } else {
            self.drag_start
        }
    }

    /// `self` after the twists of the keys of `keys`, made in order.
    pub open spec fn press_keys(self, keys: Seq<TwistKey>) -> Session
        decreases keys.len(),
    {
        if keys.len() == 0 {
            self
        } else {
            self.press_keys(keys.drop_last()).twist(keys.last().spec_twist())
        }
    }

    /// `self` with the place kept where a drag begins, if one begins.
    pub open spec fn begin_drag(self, input: FrameInput) -> Session {
        if input.drag_started {
            Session { drag_start: input.pointer, ..self }
        } else {
            self
        }
    }

    /// `self` after a drag is let go, if one is: by its end, or by the pointer
    /// leaving the puzzle. The disk that the drag held is twisted to the
    /// nearest whole sector, with an animation that starts where the drag left
    /// the disk.
    pub open spec fn release_drag(self, input: FrameInput) -> Session {
        if input.drag_stopped || (input.dragged && input.pointer is None) {
            match self.drag_angle_offset {
                Some((grip, angle)) => {
                    let commit = spec_drag_release(grip, self.config.n(grip) as int, angle);
                    self.twist_with_initial_angle(commit.0, commit.1)
                },
                None => self,
            }
        } else {
            self
        }
    }

    /// `self` with the drag followed. While a drag is under way over the
    /// puzzle, all animations are dropped and the disk `hovered` is held at the
    /// angle of the drag. Else nothing is held and no drag is remembered.
    pub open spec fn track_drag(self, input: FrameInput, hovered: Option<Grip>) -> Session {
        if input.dragged && input.pointer is Some {
            Session {
                animation: Playback::idle(),
                drag_angle_offset: match hovered {
                    Some(grip) if self.drag_start is Some => Some((grip, input.drag_angle as int)),
                    _ => self.drag_angle_offset,
                },
                ..self
            }
        } else {
            Session { drag_start: None, drag_angle_offset: None, ..self }
        }
    }

    /// `self` after the clicks and the scrolling of a frame over the disk
    /// `hovered`. In sector click mode a click turns the clicked sector to the
    /// shared cell. Plain clicks and scroll notches make one twist between
    /// them.
    pub open spec fn click_and_scroll(
        self,
        input: FrameInput,
        prefs: Preferences,
        hovered: Option<Grip>,
    ) -> Session {
        match hovered {
            Some(grip) => {
                let clicked = if prefs.sector_click_mode && input.clicked && input.pointer is Some {
                    self.twist_if(
                        spec_sector_click_twist(
                            grip,
                            self.config.n(grip) as int,
                            input.pointer_angle as int,
                        ),
                    )
                } else {
                    self
                };
                clicked.twist_if(
                    spec_signed_twist(
                        grip,
                        spec_click_scroll_count(
                            input.clicked,
                            input.secondary_clicked,
                            prefs.sector_click_mode,
                            input.scroll@,
                        ),
                    ),
                )
            },
            None => self,
        }
    }

    /// `self` after the twist `t`, if there is one.
    pub open spec fn twist_if(self, t: Option<Twist>) -> Session {
        match t {
            Some(t) => self.twist(t),
            None => self,
        }
    }

    /// `self` after the input of one frame: the puzzle is made if it was not,
    /// then keys, drag, clicks and scrolling take effect, in that order. The
    /// hovered disk is found once, before anything else.
    pub open spec fn handle_input(self, input: FrameInput, prefs: Preferences) -> Session {
        let made = self.with_state();
        let hovered = made.hovered_grip(input.pointer);
        made.press_keys(input.keys@).begin_drag(input).release_drag(input).track_drag(
            input,
            hovered,
        ).click_and_scroll(input, prefs, hovered)
    }

    /// Whether `self` is what a scramble can make of `before`: marked as
    /// scrambled, with pieces that the twists of a scramble bring from solved
    /// order, each piece still there once, and with no animation and no drag.
    /// The configuration is that of `before`.
    pub open spec fn scrambled_from(self, before: Session) -> bool {
        &&& self.state matches Some(s)
        &&& exists|moves: Seq<Twist>|
            is_scramble_run(moves, before.config) && s == #[trigger] Arrangement::solved(
                before.config.a as int,
                before.config.b as int,
            ).after(moves)
        &&& s.reachable(before.config.a as int, before.config.b as int)
        &&& s.is_permutation()
        &&& self == Session { state: self.state, was_scrambled: true, ..before.reset() }
    }

    /// The disk that moves: the one that a drag holds, else the one whose
    /// animation plays.
    pub open spec fn moving_grip(self) -> Option<Grip> {
        match self.drag_angle_offset {
            Some((g, _)) => Some(g),
            None => if self.animation.is_animating() {
                Some(self.animation.queue[0].grip)
            } else {
                None
            },
        }
    }

    /// The arrangement to show: the one before the twist whose animation
    /// plays, else the pieces as they are.
    pub open spec fn visual_state(self) -> Option<Arrangement> {
        if self.animation.is_animating() {
            Some(self.animation.queue[0].state)
        } else {
            self.state
        }
    }

    /// The sector that is drawn at place `i` of `grip`, counted from the
    /// shared cell: the sectors turn with the pieces shown, unless the axis of
    /// the disk is stationary.
    pub open spec fn sector_at(self, grip: Grip, i: int) -> int {
        if self.config.axis_stationary(grip) {
            i
        } else {
            (i + self.visual_state()->0.rot(grip)) % (self.config.n(grip) as int)
        }
    }

    /// Whether the puzzle is to be announced as solved: its pieces are in
    /// solved order and came there from a scramble.
    pub open spec fn solved_after_scramble(self) -> bool {
        self.was_scrambled && self.is_solved()
    }
}

/// Whether `moves` are the twists of a scramble of a puzzle of `config`:
/// clockwise twists of disk `A` and disk `B` in turn, [`SCRAMBLE_ROUNDS`] of
/// each, each by fewer sectors than its disk has.
pub open spec fn is_scramble_run(moves: Seq<Twist>, config: PuzzleConfig) -> bool {
    &&& moves.len() == 2 * SCRAMBLE_ROUNDS
    &&& forall|i: int|
        0 <= i < moves.len() ==> {
            &&& (#[trigger] moves[i]).direction == TwistDir::Cw
            &&& moves[i].grip == if i % 2 == 0 {
                Grip::A
            } else {
                Grip::B
            }
            &&& moves[i].amount < config.n(moves[i].grip)
        }
}

/// The seed that eight bytes give: the eight bytes four times over.
pub open spec fn spec_seed_from_word(bytes: Seq<u8>) -> Seq<u8> {
    Seq::new(32, |i: int| bytes[i % 8])
}

/// The seed that eight bytes give: the eight bytes four times over.
pub fn seed_from_word(b: [u8; 8]) -> (r: [u8; 32])
    ensures
        r@ == spec_seed_from_word(b@),
{
    let r: [u8; 32] = [
        b[0], b[1], b[2], b[3], b[4], b[5], b[6], b[7],
        b[0], b[1], b[2], b[3], b[4], b[5], b[6], b[7],
        b[0], b[1], b[2], b[3], b[4], b[5], b[6], b[7],
        b[0], b[1], b[2], b[3], b[4], b[5], b[6], b[7],
    ];
    assert(r@ =~= spec_seed_from_word(b@));
    r
}

/// A seed made from the present moment: the hash of the time, four times
/// over.
fn clock_seed() -> (r: [u8; 32])
    ensures
        r@ == spec_seed_from_word(r@.subrange(0, 8)),
{
    let mut hasher: DefaultHasher = DefaultHasher::new();
    let moment = now();
    hash_instant(&moment, &mut hasher);
    let word: [u8; 8] = native_bytes(hasher.finish());
    let r: [u8; 32] = seed_from_word(word);
    assert(r@.subrange(0, 8) =~= word@);
    r
}

/// How a disk is to be shown.
#[derive(Debug, Copy, Clone, PartialEq, Eq, Structural)]
pub enum GripMotion {
    /// At rest.
    Still,
    /// Held by a drag, turned by `angle`.
    Dragged { angle: i64 },
    /// Turning from `initial_angle` to `final_angle`, `progress` parts of
    /// [`PROGRESS_DONE`] on the way. The angles count against the sense in
    /// which the disk is drawn.
    Animated { initial_angle: i64, final_angle: i64, progress: u32 },
}

/// One puzzle in play.
#[derive(Debug)]
pub struct PuzzleView {
    config: PuzzleConfig,
    state: Option<PuzzleState>,
    was_scrambled: bool,
    animation: TwistAnimationState,
    last_frame_time: Option<u64>,
    drag_start: Option<Point>,
    drag_angle_offset: Option<(Grip, i64)>,
}

impl View for PuzzleView {
    type V = Session;

    closed spec fn view(&self) -> Session {
        Session {
            config: self.config,
            state: match self.state {
                Some(s) => Some(s@),
                None => None,
            },
            was_scrambled: self.was_scrambled,
            animation: self.animation@,
            last_frame_time: self.last_frame_time,
            drag_start: self.drag_start,
            drag_angle_offset: match self.drag_angle_offset {
                Some((g, angle)) => Some((g, angle as int)),
                None => None,
            },
        }
    }
}

impl Default for PuzzleView {
    /// A puzzle of the default configuration that has not been made yet.
    fn default() -> (r: Self)
        ensures
            r@ == Session::fresh(PuzzleConfig::spec_default()),
            r.wf(),
    {
        PuzzleView::new(PuzzleConfig::default())
    }
}

impl Clone for PuzzleView {
    fn clone(&self) -> (r: Self)
        ensures
            r@ == self@,
    {
        let r = PuzzleView {
            config: self.config,
            state: match &self.state {
                Some(s) => Some(s.clone()),
                None => None,
            },
            was_scrambled: self.was_scrambled,
            animation: self.animation.clone(),
            last_frame_time: self.last_frame_time,
            drag_start: self.drag_start,
            drag_angle_offset: self.drag_angle_offset,
        };
        assert(r@ =~= self@);
        r
    }
}

impl PuzzleView {
    /// Whether `self` meets the invariant of a puzzle in play.
    pub open spec fn wf(&self) -> bool {
        self@.wf()
    }

    /// A puzzle of `config` that has not been made yet.
    pub fn new(config: PuzzleConfig) -> (r: Self)
        requires
            config.valid(),
        ensures
            r@ == Session::fresh(config),
            r.wf(),
    {
        PuzzleView {
            config,
            state: None,
            was_scrambled: false,
            animation: TwistAnimationState::default(),
            last_frame_time: None,
            drag_start: None,
            drag_angle_offset: None,
        }
    }

    /// The puzzle's configuration.
    pub fn config(&self) -> (r: PuzzleConfig)
        ensures
            r == self@.config,
    {
        self.config
    }

    /// Gives the puzzle the configuration `config`. Where that is a change,
    /// the pieces, the animations and the drag are discarded.
    pub fn set_config(&mut self, config: PuzzleConfig)
        requires
            old(self).wf(),
            config.valid(),
        ensures
            final(self)@ == old(self)@.set_config(config),
            final(self).wf(),
    {
        if config != self.config {
            self.config = config;
            self.reset();
        }
    }

    /// Discards the pieces, the animations and the drag. The puzzle is made
    /// anew, solved, when it is next needed.
    pub fn reset(&mut self)
        requires
            old(self)@.config.valid(),
        ensures
            final(self)@ == old(self)@.reset(),
            final(self).wf(),
    {
        self.state = None;
        self.animation = TwistAnimationState::default();
        self.was_scrambled = false;
        self.drag_start = None;
        self.drag_angle_offset = None;
    }

    /// Makes the pieces, in solved order, where the puzzle has none.
    pub fn ensure_state(&mut self)
        requires
            old(self).wf(),
        ensures
            final(self)@ == old(self)@.with_state(),
            final(self)@.state is Some,
            final(self).wf(),
    {
        if self.state.is_none() {
            self.state = Some(PuzzleState::new(self.config));
        }
    }

    /// The pieces, once the puzzle has been made.
    pub fn state(&self) -> (r: Option<&PuzzleState>)
        ensures
            r is Some <==> self@.state is Some,
            r matches Some(s) ==> Some(s@) == self@.state,
    {
        self.state.as_ref()
    }

    /// Scrambles the puzzle with random numbers seeded from the present
    /// moment: see [`PuzzleView::scramble_with`].
    pub fn scramble(&mut self)
        requires
            old(self).wf(),
        ensures
            final(self)@.scrambled_from(old(self)@),
            final(self).wf(),
    {
        let mut rng: StdRng = rng_from_seed(clock_seed());
        self.scramble_with(&mut rng);
    }

    /// Scrambles the puzzle with the random numbers of `rng`: discards
    /// pieces, animations and drag, makes the pieces anew in solved order,
    /// turns each disk clockwise by a random number of sectors, disk `A` and
    /// disk `B` in turn, [`SCRAMBLE_ROUNDS`] times each, and marks the puzzle
    /// as scrambled. The twists are not animated.
    pub fn scramble_with(&mut self, rng: &mut StdRng)
        requires
            old(self).wf(),
        ensures
            final(self)@.scrambled_from(old(self)@),
            final(self).wf(),
    {
        self.reset();
        let mut state: PuzzleState = PuzzleState::new(self.config);
        let ghost a = self.config.a as int;
        let ghost b = self.config.b as int;
        let ghost mut moves: Seq<Twist> = Seq::empty();
        let mut round: u32 = 0;
        while round < SCRAMBLE_ROUNDS
            invariant
                round <= SCRAMBLE_ROUNDS,
                state.wf(),
                state@.n(Grip::A) == a,
                state@.n(Grip::B) == b,
                state@ == Arrangement::solved(a, b).after(moves),
                moves.len() == 2 * round,
                a == self.config.a,
                b == self.config.b,
                forall|i: int|
                    0 <= i < moves.len() ==> {
                        &&& (#[trigger] moves[i]).direction == TwistDir::Cw
                        &&& moves[i].grip == if i % 2 == 0 {
                            Grip::A
                        } else {
                            Grip::B
                        }
                        &&& moves[i].amount < self.config.n(moves[i].grip)
                    },
            decreases SCRAMBLE_ROUNDS - round,
        {
            let ka: u32 = random_below(rng, state.n(Grip::A));
            proof {
                let t = Twist { grip: Grip::A, direction: TwistDir::Cw, amount: ka };
                super::twist_laws::lemma_after_push(Arrangement::solved(a, b), moves, t);
                super::twist_laws::lemma_twist_keeps_invariant(state@, Grip::A, ka as int);
                moves = moves.push(t);
            }
            state.twist_cw(Grip::A, ka);
            let kb: u32 = random_below(rng, state.n(Grip::B));
            proof {
                let t = Twist { grip: Grip::B, direction: TwistDir::Cw, amount: kb };
                super::twist_laws::lemma_after_push(Arrangement::solved(a, b), moves, t);
                super::twist_laws::lemma_twist_keeps_invariant(state@, Grip::B, kb as int);
                moves = moves.push(t);
            }
            state.twist_cw(Grip::B, kb);
            round = round + 1;
        }
        proof {
            super::twist_laws::lemma_reachable_invariant(a, b, moves);
            assert(is_scramble_run(moves, self.config));
        }
        self.state = Some(state);
        self.was_scrambled = true;
    }

    /// Whether the pieces come from a scramble.
    pub fn was_scrambled(&self) -> (r: bool)
        ensures
            r == self@.was_scrambled,
    {
        self.was_scrambled
    }

    /// Whether the pieces are in solved order. A puzzle that has not been made
    /// does not count as solved.
    pub fn is_solved(&self) -> (r: bool)
        ensures
            r == self@.is_solved(),
    {
        match &self.state {
            Some(state) => state.is_solved(self.config),
            None => false,
        }
    }

    /// Whether the puzzle is to be announced as solved: its pieces are in
    /// solved order and came there from a scramble. A puzzle that was never
    /// scrambled is never announced.
    pub fn solved_after_scramble(&self) -> (r: bool)
        ensures
            r == self@.solved_after_scramble(),
    {
        self.was_scrambled && self.is_solved()
    }

    /// Whether an animation plays.
    pub fn is_animating(&self) -> (r: bool)
        ensures
            r == self@.animation.is_animating(),
    {
        self.animation.len() > 0
    }

    /// How many animations wait to be shown, the playing one included.
    pub fn pending_animations(&self) -> (r: usize)
        ensures
            r == self@.animation.queue.len(),
    {
        self.animation.len()
    }

    /// Makes the twist `grip`, `direction`, `amt`, with an animation that
    /// starts at rest.
    pub fn twist(&mut self, grip: Grip, direction: TwistDir, amt: u32)
        requires
            old(self).wf(),
        ensures
            final(self)@ == old(self)@.twist(Twist { grip, direction, amount: amt }),
            final(self).wf(),
    {
        self.twist_with_initial_angle(grip, direction, 0, amt);
    }

    /// Makes the twist `grip`, `direction`, `amt`, with an animation that
    /// starts at `initial_angle`. The pieces move at once; what is shown
    /// follows as the animations play.
    pub fn twist_with_initial_angle(
        &mut self,
        grip: Grip,
        direction: TwistDir,
        initial_angle: i64,
        amt: u32,
    )
        requires
            old(self).wf(),
        ensures
            final(self)@ == old(self)@.twist_with_initial_angle(
                Twist { grip, direction, amount: amt },
                initial_angle as int,
            ),
            final(self).wf(),
    {
        let ghost t = Twist { grip, direction, amount: amt };
        match &mut self.state {
            Some(state) => {
                let old_state: PuzzleState = state.clone();
                match direction {
                    TwistDir::Cw => state.twist_cw(grip, amt),
                    TwistDir::Ccw => state.twist_ccw(grip, amt),
                }
                let target: i64 = twist_angle(self.config.n(grip), direction.sign(), amt);
                let final_angle: i64 = short_way(initial_angle, target);
                self.animation.push(
                    TwistAnimation { state: old_state, grip, initial_angle, final_angle },
                );
                proof {
                    super::twist_laws::lemma_twist_keeps_invariant(
                        old(self)@.state->0,
                        grip,
                        amt as int,
                    );
                    super::twist_laws::lemma_twist_keeps_permutation(
                        old(self)@.state->0,
                        grip,
                        amt as int,
                    );
                    assert(self@ =~= old(self)@.twist_with_initial_angle(t, initial_angle as int));
                }
            },
            None => {},
        }
    }

    /// Shows the frame at the time `now`, counted in nanoseconds from any fixed
    /// moment: moves the animations on by the time since the last frame, and
    /// says whether another frame is wanted because an animation still plays.
    pub fn advance(&mut self, now: u64, prefs: &Preferences) -> (repaint: bool)
        requires
            old(self).wf(),
        ensures
            final(self)@ == old(self)@.advance(now, prefs.twist_duration),
            repaint == final(self)@.animation.is_animating(),
            final(self).wf(),
    {
        let delta: u64 = match self.last_frame_time {
            Some(then) => if now >= then {
                now - then
            } else {
                0
            },
            None => ASSUMED_FRAME_TIME,
        };
        let ghost before = self.animation@;
        let repaint: bool = self.animation.proceed(delta, prefs);
        if repaint {
            self.last_frame_time = Some(now);
        } else {
            self.last_frame_time = None;
        }
        proof {
            assert forall|i: int| 0 <= i < self.animation@.queue.len() implies self@.fits(
                (#[trigger] self.animation@.queue[i]).state,
            ) by {
                if self.animation@.queue.len() < before.queue.len() {
                    assert(self.animation@.queue[i] == before.queue[i + 1]);
                } else {
                    assert(self.animation@.queue[i] == before.queue[i]);
                }
            }
            assert(self@ =~= old(self)@.advance(now, prefs.twist_duration));
        }
        repaint
    }

    /// The disk that the pointer is on: the one that claims the point where
    /// the drag under way began, or else the point `pointer`.
    pub fn hovered_grip(&self, pointer: Option<Point>) -> (r: Option<Grip>)
        requires
            self.wf(),
        ensures
            r == self@.hovered_grip(pointer),
    {
        match self.drag_anchor(false, pointer) {
            Some(p) => self.config.hovered_grip(p),
            None => None,
        }
    }

    /// The point from which a drag is measured in a frame in which the
    /// pointer is at `pointer`.
    pub fn drag_anchor(&self, drag_started: bool, pointer: Option<Point>) -> (r: Option<Point>)
        ensures
            r == self@.drag_anchor(drag_started, pointer),
    {
        if drag_started || self.drag_start.is_none() {
            pointer
        } else {
            self.drag_start
        }
    }

    /// The disk that a drag holds and the angle by which it has turned it.
    pub fn drag_angle_offset(&self) -> (r: Option<(Grip, i64)>)
        ensures
            r is Some <==> self@.drag_angle_offset is Some,
            r matches Some((g, angle)) ==> self@.drag_angle_offset == Some((g, angle as int)),
    {
        self.drag_angle_offset
    }

    /// Makes the twist `t`, if there is one.
    fn twist_if(&mut self, t: Option<Twist>)
        requires
            old(self).wf(),
        ensures
            final(self)@ == old(self)@.twist_if(t),
            old(self)@.state is Some ==> final(self)@.state is Some,
            final(self).wf(),
    {
        match t {
            Some(t) => self.twist(t.grip, t.direction, t.amount),
            None => {},
        }
    }

    /// Makes the twists of the keys of `keys`, in order.
    fn press_keys(&mut self, keys: &Vec<TwistKey>)
        requires
            old(self).wf(),
        ensures
            final(self)@ == old(self)@.press_keys(keys@),
            old(self)@.state is Some ==> final(self)@.state is Some,
            final(self).wf(),
    {
        let ghost start = self@;
        let mut i: usize = 0;
        while i < keys.len()
            invariant
                i <= keys.len(),
                self.wf(),
                start.state is Some ==> self@.state is Some,
                self@ == start.press_keys(keys@.subrange(0, i as int)),
            decreases keys.len() - i,
        {
            proof {
                assert(keys@.subrange(0, i + 1).drop_last() =~= keys@.subrange(0, i as int));
            }
            let t: Twist = keys[i].twist();
            self.twist(t.grip, t.direction, t.amount);
            i = i + 1;
        }
        assert(keys@.subrange(0, i as int) =~= keys@);
    }

    /// Keeps the place where a drag begins, if one begins.
    fn begin_drag(&mut self, input: &FrameInput)
        requires
            old(self).wf(),
        ensures
            final(self)@ == old(self)@.begin_drag(*input),
            old(self)@.state is Some ==> final(self)@.state is Some,
            final(self).wf(),
    {
        if input.drag_started {
            self.drag_start = input.pointer;
        }
    }

    /// Commits the drag, if it is let go.
    fn release_drag(&mut self, input: &FrameInput)
        requires
            old(self).wf(),
        ensures
            final(self)@ == old(self)@.release_drag(*input),
            old(self)@.state is Some ==> final(self)@.state is Some,
            final(self).wf(),
    {
        if input.drag_stopped || (input.dragged && input.pointer.is_none()) {
            if let Some((grip, angle)) = self.drag_angle_offset {
                let commit: (Twist, i64) = drag_release(grip, self.config.n(grip), angle);
                self.twist_with_initial_angle(
                    commit.0.grip,
                    commit.0.direction,
                    commit.1,
                    commit.0.amount,
                );
            }
        }
    }

    /// Follows the drag, or forgets it where none is under way.
    fn track_drag(&mut self, input: &FrameInput, hovered: Option<Grip>)
        requires
            old(self).wf(),
            input.wf(),
        ensures
            final(self)@ == old(self)@.track_drag(*input, hovered),
            old(self)@.state is Some ==> final(self)@.state is Some,
            final(self).wf(),
    {
        if input.dragged && input.pointer.is_some() {
            self.animation = TwistAnimationState::default();
            if let Some(grip) = hovered {
                if self.drag_start.is_some() {
                    self.drag_angle_offset = Some((grip, input.drag_angle));
                }
            }
        } else {
            self.drag_start = None;
            self.drag_angle_offset = None;
        }
    }

    /// Makes the twists of the clicks and the scrolling of a frame.
    fn click_and_scroll(&mut self, input: &FrameInput, prefs: &Preferences, hovered: Option<Grip>)
        requires
            old(self).wf(),
            input.wf(),
        ensures
            final(self)@ == old(self)@.click_and_scroll(*input, *prefs, hovered),
            old(self)@.state is Some ==> final(self)@.state is Some,
            final(self).wf(),
    {
        if let Some(grip) = hovered {
            if prefs.sector_click_mode && input.clicked && input.pointer.is_some() {
                let t: Option<Twist> = sector_click_twist(
                    grip,
                    self.config.n(grip),
                    input.pointer_angle,
                );
                self.twist_if(t);
            }
            let t: Option<Twist> = click_scroll_twist(
                grip,
                input.clicked,
                input.secondary_clicked,
                prefs.sector_click_mode,
                &input.scroll,
            );
            self.twist_if(t);
        }
    }

    /// Takes in what the pointer and the keys did in one frame: makes the
    /// puzzle if it was not made, then lets keys, drag, clicks and scrolling
    /// take effect, in that order.
    pub fn handle_input(&mut self, input: &FrameInput, prefs: &Preferences)
        requires
            old(self).wf(),
            input.wf(),
        ensures
            final(self)@ == old(self)@.handle_input(*input, *prefs),
            final(self)@.state is Some,
            final(self).wf(),
    {
        self.ensure_state();
        let hovered: Option<Grip> = self.hovered_grip(input.pointer);
        self.press_keys(&input.keys);
        self.begin_drag(input);
        self.release_drag(input);
        self.track_drag(input, hovered);
        self.click_and_scroll(input, prefs, hovered);
    }

    /// One frame: takes in the input, then moves the animations on to the
    /// time `now`. Says whether another frame is wanted.
    pub fn update(&mut self, input: &FrameInput, prefs: &Preferences, now: u64) -> (repaint: bool)
        requires
            old(self).wf(),
            input.wf(),
        ensures
            final(self)@ == old(self)@.handle_input(*input, *prefs).advance(
                now,
                prefs.twist_duration,
            ),
            repaint == final(self)@.animation.is_animating(),
            final(self).wf(),
    {
        self.handle_input(input, prefs);
        self.advance(now, prefs)
    }

    /// The disk that moves: the one that a drag holds, else the one whose
    /// animation plays.
    pub fn moving_grip(&self) -> (r: Option<Grip>)
        requires
            self.wf(),
        ensures
            r == self@.moving_grip(),
    {
        match self.drag_angle_offset {
            Some((g, _)) => Some(g),
            None => match self.animation.current() {
                Some((anim, _)) => Some(anim.grip),
                None => None,
            },
        }
    }

    /// The order in which the disks are drawn: the moving disk last, so that
    /// it lies on top.
    pub fn grip_draw_order(&self) -> (r: (Grip, Grip))
        requires
            self.wf(),
        ensures
            r == if self@.moving_grip() == Some(Grip::A) {
                (Grip::B, Grip::A)
            } else {
                (Grip::A, Grip::B)
            },
    {
        match self.moving_grip() {
            Some(Grip::A) => (Grip::B, Grip::A),
            _ => (Grip::A, Grip::B),
        }
    }

    /// How `grip` is to be shown: as the drag holds it, else as its animation
    /// plays, else at rest.
    pub fn grip_motion(&self, grip: Grip) -> (r: GripMotion)
        requires
            self.wf(),
        ensures
            r == match self@.drag_angle_offset {
                Some((g, angle)) if g == grip => GripMotion::Dragged { angle: angle as i64 },
                _ => if self@.animation.is_animating() && self@.animation.queue[0].grip == grip {
                    GripMotion::Animated {
                        initial_angle: self@.animation.queue[0].initial_angle as i64,
                        final_angle: self@.animation.queue[0].final_angle as i64,
                        progress: self@.animation.progress as u32,
                    }
                } else {
                    GripMotion::Still
                },
            },
    {
        if let Some((g, angle)) = self.drag_angle_offset {
            if g == grip {
                return GripMotion::Dragged { angle };
            }
        }
        if let Some((anim, t)) = self.animation.current() {
            if anim.grip == grip {
                return GripMotion::Animated {
                    initial_angle: anim.initial_angle,
                    final_angle: anim.final_angle,
                    progress: t,
                };
            }
        }
        GripMotion::Still
    }

    /// The sector that is drawn at place `i` of `grip`, counted from the
    /// shared cell.
    pub fn sector_at(&self, grip: Grip, i: u32) -> (r: u32)
        requires
            self.wf(),
            self@.visual_state() is Some,
            i < self@.config.n(grip),
        ensures
            r == self@.sector_at(grip, i as int),
            r < self@.config.n(grip),
    {
        if self.config.axis_stationary(grip) {
            i
        } else {
            match self.visual_state() {
                Some(shown) => (i + shown.rot(grip)) % self.config.n(grip),
                None => i,
            }
        }
    }

    /// The piece that is drawn in cell `i` of `grip`.
    pub fn sticker_at(&self, grip: Grip, i: u32) -> (r: u32)
        requires
            self.wf(),
            self@.visual_state() is Some,
            i < self@.config.n(grip),
        ensures
            r == self@.visual_state()->0.pieces(grip)[i as int],
            r < self@.config.a + self@.config.b - 1,
    {
        match self.visual_state() {
            Some(shown) => {
                proof {
                    super::twist_laws::lemma_pieces_in_range(shown@, grip, i as int);
                }
                shown.pieces(grip)[i as usize]
            },
            None => 0,
        }
    }

    /// The arrangement to show: the one before the twist whose animation
    /// plays, else the pieces as they are.
    pub fn visual_state(&self) -> (r: Option<&PuzzleState>)
        requires
            self.wf(),
        ensures
            r is Some <==> self@.visual_state() is Some,
            r matches Some(s) ==> Some(s@) == self@.visual_state() && self@.fits(s@),
    {
        match self.animation.current() {
            Some((anim, _)) => Some(&anim.state),
            None => self.state.as_ref(),
        }
    }
}

} // verus!
