use sphenic_biaxe::puzzle::twist_anim::{
    progress_step, TwistAnimation, TwistAnimationState, PROGRESS_DONE,
};
use sphenic_biaxe::{Grip, Preferences, PuzzleConfig, PuzzleState};

fn snapshot(turns: u32) -> PuzzleState {
    let mut s = PuzzleState::new(PuzzleConfig {
        a: 5,
        b: 3,
        a_axis_stationary: false,
        b_axis_stationary: false,
    });
    s.twist_cw(Grip::A, turns);
    s
}

fn lasting(twist_duration: u64) -> Preferences {
    Preferences { twist_duration, ..Preferences::default() }
}

fn animation(turns: u32, grip: Grip, final_angle: i64) -> TwistAnimation {
    TwistAnimation { state: snapshot(turns), grip, initial_angle: 0, final_angle }
}

#[test]
fn progress_step_is_share_of_duration() {
    assert_eq!(progress_step(0, 200_000_000), 0);
    assert_eq!(progress_step(8_333_333, 200_000_000), 41_666);
    assert_eq!(progress_step(100_000_000, 200_000_000), 500_000);
    assert_eq!(progress_step(199_999_999, 200_000_000), 999_999);
    assert_eq!(progress_step(200_000_000, 200_000_000), PROGRESS_DONE);
    assert_eq!(progress_step(u64::MAX, 1), PROGRESS_DONE);
    assert_eq!(progress_step(1, u64::MAX), 0);
}

#[test]
fn animation_without_duration_completes_at_once() {
    assert_eq!(progress_step(0, 0), PROGRESS_DONE);
    assert_eq!(progress_step(5, 0), PROGRESS_DONE);
    let mut player = TwistAnimationState::default();
    player.push(animation(0, Grip::A, 144_144));
    assert!(!player.proceed(0, &lasting(0)));
    assert!(player.current().is_none());
}

#[test]
fn idle_player_stays_idle() {
    let mut player = TwistAnimationState::default();
    assert!(player.current().is_none());
    assert_eq!(player.len(), 0);
    assert!(!player.proceed(1_000_000, &lasting(200_000_000)));
    assert!(player.current().is_none());
}

#[test]
fn playing_animation_moves_on_and_leaves_when_complete() {
    let mut player = TwistAnimationState::default();
    player.push(animation(0, Grip::A, 144_144));
    let (first, t) = player.current().unwrap();
    assert_eq!(t, 0);
    assert_eq!(first.final_angle, 144_144);
    assert!(player.proceed(50_000_000, &lasting(200_000_000)));
    assert_eq!(player.current().unwrap().1, 250_000);
    assert!(player.proceed(100_000_000, &lasting(200_000_000)));
    assert_eq!(player.current().unwrap().1, 750_000);
    assert!(!player.proceed(50_000_000, &lasting(200_000_000)));
    assert!(player.current().is_none());
    assert_eq!(player.len(), 0);
}

#[test]
fn animations_play_in_the_order_in_which_they_came() {
    let mut player = TwistAnimationState::default();
    player.push(animation(0, Grip::A, 1));
    player.push(animation(1, Grip::B, 2));
    player.push(animation(2, Grip::A, 3));
    assert_eq!(player.len(), 3);
    for (k, grip) in [(0u32, Grip::A), (1, Grip::B), (2, Grip::A)] {
        let (playing, t) = player.current().unwrap();
        assert_eq!(t, 0);
        assert_eq!(playing.final_angle, k as i64 + 1);
        assert_eq!(playing.grip, grip);
        assert_eq!(playing.state, snapshot(k));
        let more = player.proceed(200_000_000, &lasting(200_000_000));
        assert_eq!(more, k < 2);
    }
    assert!(player.current().is_none());
}

#[test]
fn progress_starts_from_zero_for_each_animation() {
    let mut player = TwistAnimationState::default();
    player.push(animation(0, Grip::A, 1));
    player.push(animation(1, Grip::A, 2));
    assert!(player.proceed(150_000_000, &lasting(200_000_000)));
    assert_eq!(player.current().unwrap().1, 750_000);
    // overshoot is not carried over
    assert!(player.proceed(150_000_000, &lasting(200_000_000)));
    let (playing, t) = player.current().unwrap();
    assert_eq!(t, 0);
    assert_eq!(playing.final_angle, 2);
}

#[test]
fn copy_of_player_plays_the_same() {
    let mut player = TwistAnimationState::default();
    player.push(animation(0, Grip::A, 1));
    player.push(animation(1, Grip::B, 2));
    player.proceed(20_000_000, &lasting(200_000_000));
    let mut copy = player.clone();
    assert_eq!(copy.len(), 2);
    assert_eq!(copy.current().unwrap().1, 100_000);
    assert_eq!(copy.current().unwrap().0, player.current().unwrap().0);
    copy.proceed(200_000_000, &lasting(200_000_000));
    assert_eq!(copy.len(), 1);
    assert_eq!(player.len(), 2);
}
