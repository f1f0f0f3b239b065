use rand::rngs::StdRng;
use rand::SeedableRng;
use sphenic_biaxe::angle::TURN;
use sphenic_biaxe::puzzle::geometry::Point;
use sphenic_biaxe::puzzle::input::{FrameInput, ScrollNotch, TwistKey};
use sphenic_biaxe::puzzle::view::{seed_from_word, GripMotion, ASSUMED_FRAME_TIME};
use sphenic_biaxe::{Grip, Preferences, PuzzleConfig, PuzzleState, PuzzleView, TwistDir};

const SECTOR_OF_FIVE: i64 = TURN / 5;

fn five_three() -> PuzzleConfig {
    PuzzleConfig { a: 5, b: 3, a_axis_stationary: false, b_axis_stationary: true }
}

fn made(config: PuzzleConfig) -> PuzzleView {
    let mut view = PuzzleView::new(config);
    view.ensure_state();
    view
}

fn over_a() -> Option<Point> {
    Some(Point { x: 500_000, y: 1_000_000 })
}

fn over_b() -> Option<Point> {
    Some(Point { x: 2_500_000, y: 1_000_000 })
}

fn all_pieces_sorted(s: &PuzzleState) -> Vec<u32> {
    let mut all: Vec<u32> = s.a_pieces.clone();
    all.extend_from_slice(&s.b_pieces[1..]);
    all.sort();
    all
}

#[test]
fn fresh_view_has_no_pieces_yet() {
    let view = PuzzleView::new(five_three());
    assert!(view.state().is_none());
    assert!(!view.is_solved());
    assert!(!view.was_scrambled());
    assert!(!view.is_animating());
    assert_eq!(view.config(), five_three());
    assert_eq!(view.moving_grip(), None);
    assert_eq!(view.grip_draw_order(), (Grip::A, Grip::B));
    assert!(view.visual_state().is_none());
    let view = PuzzleView::default();
    assert_eq!(view.config(), PuzzleConfig::default());
    assert!(view.state().is_none());
}

#[test]
fn preferences_default_to_fifth_of_a_second() {
    let prefs = Preferences::default();
    assert_eq!(prefs.twist_duration, 200_000_000);
    assert!(prefs.show_labels);
    assert!(!prefs.sector_click_mode);
}

#[test]
fn twist_before_the_puzzle_is_made_does_nothing() {
    let mut view = PuzzleView::new(five_three());
    view.twist(Grip::A, TwistDir::Cw, 1);
    assert!(view.state().is_none());
    assert_eq!(view.pending_animations(), 0);
}

#[test]
fn made_puzzle_is_solved_but_not_announced() {
    let view = made(five_three());
    assert_eq!(view.state(), Some(&PuzzleState::new(five_three())));
    assert!(view.is_solved());
    assert!(!view.was_scrambled());
    assert!(!view.solved_after_scramble());
}

#[test]
fn two_twists_in_one_frame_play_one_after_the_other() {
    let prefs = Preferences::default();
    let mut view = made(five_three());
    view.twist(Grip::A, TwistDir::Ccw, 2);
    view.twist(Grip::A, TwistDir::Ccw, 3);
    // the pieces have made both twists, a full turn in all
    assert!(view.is_solved());
    assert_eq!(view.state(), Some(&PuzzleState::new(five_three())));
    // two animations wait; the first shows the arrangement before both
    assert_eq!(view.pending_animations(), 2);
    assert_eq!(view.visual_state(), Some(&PuzzleState::new(five_three())));
    assert_eq!(
        view.grip_motion(Grip::A),
        GripMotion::Animated { initial_angle: 0, final_angle: 2 * SECTOR_OF_FIVE, progress: 0 }
    );
    assert_eq!(view.grip_motion(Grip::B), GripMotion::Still);
    assert_eq!(view.moving_grip(), Some(Grip::A));
    assert_eq!(view.grip_draw_order(), (Grip::B, Grip::A));
    // the first frame moves the first animation a little
    assert!(view.advance(1_000, &prefs));
    assert_eq!(view.pending_animations(), 2);
    assert_eq!(
        view.grip_motion(Grip::A),
        GripMotion::Animated {
            initial_angle: 0,
            final_angle: 2 * SECTOR_OF_FIVE,
            progress: 41_666
        }
    );
    // a whole duration later the second one plays, from the arrangement
    // between the twists, and goes the short way round
    assert!(view.advance(1_000 + 200_000_000, &prefs));
    assert_eq!(view.pending_animations(), 1);
    let mut between = PuzzleState::new(five_three());
    between.twist_ccw(Grip::A, 2);
    assert_eq!(view.visual_state(), Some(&between));
    assert_eq!(
        view.grip_motion(Grip::A),
        GripMotion::Animated {
            initial_angle: 0,
            final_angle: 3 * SECTOR_OF_FIVE - TURN,
            progress: 0
        }
    );
    assert!(view.is_solved());
    // and then nothing is left
    assert!(!view.advance(1_000 + 400_000_000, &prefs));
    assert_eq!(view.pending_animations(), 0);
    assert_eq!(view.grip_motion(Grip::A), GripMotion::Still);
    assert_eq!(view.visual_state(), view.state());
}

#[test]
fn solved_state_shows_at_once_while_animation_plays() {
    let mut view = made(five_three());
    view.twist(Grip::B, TwistDir::Cw, 1);
    assert!(!view.is_solved());
    assert!(view.is_animating());
    view.twist(Grip::B, TwistDir::Ccw, 1);
    assert!(view.is_solved());
    assert_eq!(view.pending_animations(), 2);
}

#[test]
fn first_frame_assumes_a_frame_time() {
    let prefs = Preferences { twist_duration: ASSUMED_FRAME_TIME, ..Preferences::default() };
    let mut view = made(five_three());
    view.twist(Grip::A, TwistDir::Cw, 1);
    // no frame came before: the assumed time passes and completes the twist
    assert!(!view.advance(77, &prefs));
    assert_eq!(view.pending_animations(), 0);
}

#[test]
fn time_that_runs_backwards_counts_as_none() {
    let prefs = Preferences::default();
    let mut view = made(five_three());
    view.twist(Grip::A, TwistDir::Cw, 1);
    assert!(view.advance(1_000_000_000, &prefs));
    assert!(view.advance(5, &prefs));
    assert_eq!(
        view.grip_motion(Grip::A),
        GripMotion::Animated { initial_angle: 0, final_angle: -SECTOR_OF_FIVE, progress: 41_666 }
    );
}

#[test]
fn reset_discards_pieces_animations_and_mark() {
    let mut view = made(five_three());
    view.scramble();
    view.twist(Grip::A, TwistDir::Cw, 1);
    view.reset();
    assert!(view.state().is_none());
    assert!(!view.was_scrambled());
    assert!(!view.is_animating());
    assert_eq!(view.config(), five_three());
    assert_eq!(view.drag_angle_offset(), None);
}

#[test]
fn change_of_config_resets_and_same_config_does_not() {
    let mut view = made(five_three());
    view.twist(Grip::A, TwistDir::Cw, 1);
    view.set_config(five_three());
    assert!(view.state().is_some());
    assert!(view.is_animating());
    let other = PuzzleConfig { a: 6, ..five_three() };
    view.set_config(other);
    assert_eq!(view.config(), other);
    assert!(view.state().is_none());
    assert!(!view.is_animating());
    view.ensure_state();
    assert_eq!(view.state().unwrap().a_pieces.len(), 6);
    let flag = PuzzleConfig { b_axis_stationary: false, ..other };
    view.set_config(flag);
    assert!(view.state().is_none());
}

#[test]
fn scramble_marks_the_puzzle_and_mixes_the_pieces() {
    let config = PuzzleConfig { a: 16, b: 16, a_axis_stationary: false, b_axis_stationary: false };
    let mut view = PuzzleView::new(config);
    view.scramble();
    assert!(view.was_scrambled());
    assert!(!view.is_animating());
    let state = view.state().unwrap();
    assert_eq!(state.a_pieces.len(), 16);
    assert_eq!(state.b_pieces.len(), 16);
    assert_eq!(state.a_pieces[0], state.b_pieces[0]);
    assert_eq!(all_pieces_sorted(state), (0..31).collect::<Vec<u32>>());
    assert!(state.a_rot < 16 && state.b_rot < 16);
    assert!(!view.is_solved());
    assert!(!view.solved_after_scramble());
    // the mark stays until a reset
    view.twist(Grip::A, TwistDir::Cw, 3);
    assert!(view.was_scrambled());
    view.reset();
    assert!(!view.was_scrambled());
}

#[test]
fn scramble_with_same_seed_gives_same_pieces() {
    let config = PuzzleConfig { a: 7, b: 9, a_axis_stationary: false, b_axis_stationary: false };
    let mut one = PuzzleView::new(config);
    let mut two = made(config);
    two.twist(Grip::B, TwistDir::Cw, 4);
    one.scramble_with(&mut StdRng::from_seed([7; 32]));
    two.scramble_with(&mut StdRng::from_seed([7; 32]));
    assert_eq!(one.state(), two.state());
    assert!(one.was_scrambled() && two.was_scrambled());
    assert!(!two.is_animating());
    assert!(!one.is_solved());
    assert_eq!(all_pieces_sorted(one.state().unwrap()), (0..15).collect::<Vec<u32>>());
    let mut three = PuzzleView::new(config);
    three.scramble_with(&mut StdRng::from_seed([8; 32]));
    assert_ne!(one.state(), three.state());
}

#[test]
fn scrambled_puzzle_is_announced_once_solved() {
    let mut view = PuzzleView::new(PuzzleConfig {
        a: 2,
        b: 2,
        a_axis_stationary: false,
        b_axis_stationary: false,
    });
    view.scramble_with(&mut StdRng::from_seed([1; 32]));
    // a puzzle of two by two has three pieces in a ring of three places:
    // turning the disks in turn brings it home within a few twists
    let mut twists = 0;
    while !view.is_solved() && twists < 12 {
        let grip = if twists % 2 == 0 { Grip::A } else { Grip::B };
        view.twist(grip, TwistDir::Cw, 1);
        twists += 1;
    }
    assert!(view.is_solved());
    assert!(view.solved_after_scramble());
}

#[test]
fn copy_of_view_goes_its_own_way() {
    let mut view = made(five_three());
    view.twist(Grip::A, TwistDir::Cw, 1);
    let mut copy = view.clone();
    assert_eq!(copy.state(), view.state());
    assert_eq!(copy.pending_animations(), 1);
    assert_eq!(copy.config(), view.config());
    copy.twist(Grip::B, TwistDir::Cw, 1);
    assert_ne!(copy.state(), view.state());
    assert_eq!(view.pending_animations(), 1);
    assert_eq!(copy.pending_animations(), 2);
}

#[test]
fn seed_repeats_eight_bytes_four_times() {
    let seed = seed_from_word([1, 2, 3, 4, 5, 6, 7, 8]);
    for (i, byte) in seed.iter().enumerate() {
        assert_eq!(*byte as usize, i % 8 + 1);
    }
}

#[test]
fn keys_twist_their_disks_in_order() {
    let prefs = Preferences::default();
    let mut view = PuzzleView::new(five_three());
    let mut frame = FrameInput::idle();
    frame.keys = vec![TwistKey::D, TwistKey::K, TwistKey::F, TwistKey::J];
    view.handle_input(&frame, &prefs);
    let mut want = PuzzleState::new(five_three());
    want.twist_ccw(Grip::A, 1);
    want.twist_cw(Grip::B, 1);
    want.twist_cw(Grip::A, 1);
    want.twist_ccw(Grip::B, 1);
    assert_eq!(view.state(), Some(&want));
    assert_eq!(view.pending_animations(), 4);
    assert_eq!(view.moving_grip(), Some(Grip::A));
}

#[test]
fn click_over_a_disk_twists_it() {
    let prefs = Preferences::default();
    let mut view = PuzzleView::new(five_three());
    let mut frame = FrameInput::idle();
    frame.pointer = over_b();
    frame.clicked = true;
    view.handle_input(&frame, &prefs);
    let mut want = PuzzleState::new(five_three());
    want.twist_ccw(Grip::B, 1);
    assert_eq!(view.state(), Some(&want));
    frame.clicked = false;
    frame.secondary_clicked = true;
    frame.pointer = over_a();
    view.handle_input(&frame, &prefs);
    want.twist_cw(Grip::A, 1);
    assert_eq!(view.state(), Some(&want));
}

#[test]
fn click_beside_the_disks_twists_nothing() {
    let prefs = Preferences::default();
    let mut view = PuzzleView::new(five_three());
    let mut frame = FrameInput::idle();
    frame.clicked = true;
    frame.scroll = vec![ScrollNotch::Up];
    view.handle_input(&frame, &prefs);
    assert!(view.is_solved());
    assert_eq!(view.pending_animations(), 0);
    frame.pointer = Some(Point { x: 10, y: 10 });
    view.handle_input(&frame, &prefs);
    assert!(view.is_solved());
    assert_eq!(view.pending_animations(), 0);
}

#[test]
fn scrolling_sums_into_one_twist() {
    let prefs = Preferences::default();
    let mut view = PuzzleView::new(five_three());
    let mut frame = FrameInput::idle();
    frame.pointer = over_a();
    frame.scroll = vec![ScrollNotch::Down, ScrollNotch::Down, ScrollNotch::Up, ScrollNotch::Down];
    view.handle_input(&frame, &prefs);
    let mut want = PuzzleState::new(five_three());
    want.twist_cw(Grip::A, 2);
    assert_eq!(view.state(), Some(&want));
    assert_eq!(view.pending_animations(), 1);
    assert_eq!(
        view.grip_motion(Grip::A),
        GripMotion::Animated { initial_angle: 0, final_angle: -2 * SECTOR_OF_FIVE, progress: 0 }
    );
}

#[test]
fn sector_click_turns_the_clicked_sector_home() {
    let prefs = Preferences { sector_click_mode: true, ..Preferences::default() };
    let mut view = PuzzleView::new(five_three());
    let mut frame = FrameInput::idle();
    frame.pointer = over_a();
    frame.clicked = true;
    frame.pointer_angle = 2 * SECTOR_OF_FIVE;
    view.handle_input(&frame, &prefs);
    let mut want = PuzzleState::new(five_three());
    want.twist_ccw(Grip::A, 2);
    assert_eq!(view.state(), Some(&want));
    assert_eq!(view.pending_animations(), 1);
    // a secondary click does nothing in this mode
    let mut frame = FrameInput::idle();
    frame.pointer = over_a();
    frame.secondary_clicked = true;
    view.handle_input(&frame, &prefs);
    assert_eq!(view.state(), Some(&want));
    assert_eq!(view.pending_animations(), 1);
}

#[test]
fn drag_holds_the_disk_and_release_commits_nearest_sector() {
    let prefs = Preferences::default();
    let mut view = PuzzleView::new(five_three());
    // an animation is under way when the drag begins
    let mut frame = FrameInput::idle();
    frame.keys = vec![TwistKey::J];
    view.handle_input(&frame, &prefs);
    assert!(view.is_animating());
    let mut twisted = PuzzleState::new(five_three());
    twisted.twist_ccw(Grip::B, 1);

    let mut frame = FrameInput::idle();
    frame.pointer = over_a();
    frame.drag_started = true;
    frame.dragged = true;
    assert_eq!(view.hovered_grip(frame.pointer), Some(Grip::A));
    assert_eq!(view.drag_anchor(true, frame.pointer), over_a());
    view.handle_input(&frame, &prefs);
    // the drag drops the animation, not the twist
    assert!(!view.is_animating());
    assert_eq!(view.state(), Some(&twisted));
    assert_eq!(view.drag_angle_offset(), Some((Grip::A, 0)));

    // the pointer wanders over disk B; the drag still holds disk A
    let mut frame = FrameInput::idle();
    frame.pointer = over_b();
    frame.dragged = true;
    frame.drag_angle = TURN / 4;
    assert_eq!(view.hovered_grip(frame.pointer), Some(Grip::A));
    assert_eq!(view.drag_anchor(false, frame.pointer), over_a());
    view.handle_input(&frame, &prefs);
    assert_eq!(view.drag_angle_offset(), Some((Grip::A, TURN / 4)));
    assert_eq!(view.grip_motion(Grip::A), GripMotion::Dragged { angle: TURN / 4 });
    assert_eq!(view.grip_motion(Grip::B), GripMotion::Still);
    assert_eq!(view.moving_grip(), Some(Grip::A));
    assert_eq!(view.state(), Some(&twisted));

    // let go: a quarter turn is nearest to one sector of five
    let mut frame = FrameInput::idle();
    frame.pointer = over_b();
    frame.drag_stopped = true;
    view.handle_input(&frame, &prefs);
    twisted.twist_cw(Grip::A, 1);
    assert_eq!(view.state(), Some(&twisted));
    assert_eq!(view.drag_angle_offset(), None);
    assert_eq!(view.pending_animations(), 1);
    assert_eq!(
        view.grip_motion(Grip::A),
        GripMotion::Animated {
            initial_angle: -TURN / 4,
            final_angle: -SECTOR_OF_FIVE,
            progress: 0
        }
    );
    assert_eq!(view.drag_anchor(false, over_b()), over_b());
}

#[test]
fn drag_that_leaves_the_puzzle_is_let_go() {
    let prefs = Preferences::default();
    let mut view = PuzzleView::new(five_three());
    let mut frame = FrameInput::idle();
    frame.pointer = over_b();
    frame.drag_started = true;
    frame.dragged = true;
    view.handle_input(&frame, &prefs);
    let mut frame = FrameInput::idle();
    frame.pointer = over_b();
    frame.dragged = true;
    frame.drag_angle = -TURN / 3 - 1_000;
    view.handle_input(&frame, &prefs);
    assert_eq!(view.drag_angle_offset(), Some((Grip::B, -TURN / 3 - 1_000)));
    let mut frame = FrameInput::idle();
    frame.pointer = None;
    frame.dragged = true;
    view.handle_input(&frame, &prefs);
    let mut want = PuzzleState::new(five_three());
    want.twist_ccw(Grip::B, 1);
    assert_eq!(view.state(), Some(&want));
    assert_eq!(view.drag_angle_offset(), None);
    assert_eq!(
        view.grip_motion(Grip::B),
        GripMotion::Animated {
            initial_angle: TURN / 3 + 1_000,
            final_angle: TURN / 3,
            progress: 0
        }
    );
}

#[test]
fn short_drag_moves_no_piece_and_eases_back() {
    let prefs = Preferences::default();
    let mut view = PuzzleView::new(five_three());
    let mut frame = FrameInput::idle();
    frame.pointer = over_a();
    frame.drag_started = true;
    frame.dragged = true;
    frame.drag_angle = 20_000;
    view.handle_input(&frame, &prefs);
    let mut frame = FrameInput::idle();
    frame.pointer = over_a();
    frame.drag_stopped = true;
    view.handle_input(&frame, &prefs);
    assert!(view.is_solved());
    assert_eq!(
        view.grip_motion(Grip::A),
        GripMotion::Animated { initial_angle: -20_000, final_angle: 0, progress: 0 }
    );
}

#[test]
fn update_takes_input_and_moves_animations_on() {
    let prefs = Preferences::default();
    let mut view = PuzzleView::new(five_three());
    let mut frame = FrameInput::idle();
    frame.keys = vec![TwistKey::F];
    assert!(view.update(&frame, &prefs, 0));
    assert_eq!(
        view.grip_motion(Grip::A),
        GripMotion::Animated { initial_angle: 0, final_angle: -SECTOR_OF_FIVE, progress: 41_666 }
    );
    assert!(!view.update(&FrameInput::idle(), &prefs, 200_000_000));
    assert!(!view.update(&FrameInput::idle(), &prefs, 300_000_000));
    assert_eq!(view.grip_motion(Grip::A), GripMotion::Still);
}

#[test]
fn sectors_turn_with_the_disk_unless_axis_is_stationary() {
    let mut view = made(five_three());
    view.twist(Grip::A, TwistDir::Cw, 1);
    view.twist(Grip::B, TwistDir::Ccw, 1);
    let prefs = Preferences { twist_duration: 0, ..Preferences::default() };
    while view.advance(0, &prefs) {}
    assert!(!view.is_animating());
    // disk A has turned by 4 of 5 in all
    assert_eq!(view.sector_at(Grip::A, 0), 4);
    assert_eq!(view.sector_at(Grip::A, 1), 0);
    assert_eq!(view.sector_at(Grip::A, 4), 3);
    // the axis of disk B is stationary
    assert_eq!(view.sector_at(Grip::B, 0), 0);
    assert_eq!(view.sector_at(Grip::B, 2), 2);
    assert_eq!(view.sticker_at(Grip::A, 0), 5);
    assert_eq!(view.sticker_at(Grip::A, 1), 0);
    assert_eq!(view.sticker_at(Grip::B, 0), 5);
    assert_eq!(view.sticker_at(Grip::B, 1), 6);
    assert_eq!(view.sticker_at(Grip::B, 2), 4);
}

#[test]
fn shown_pieces_are_those_before_the_playing_twist() {
    let mut view = made(five_three());
    view.twist(Grip::A, TwistDir::Cw, 1);
    assert_eq!(view.sticker_at(Grip::A, 0), 0);
    assert_eq!(view.sticker_at(Grip::A, 1), 1);
    assert_eq!(view.sector_at(Grip::A, 1), 1);
    assert_eq!(view.state().unwrap().a_pieces, vec![4, 0, 1, 2, 3]);
}
