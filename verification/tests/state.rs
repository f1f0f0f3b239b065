use sphenic_biaxe::{Grip, PuzzleConfig, PuzzleState, Twist, TwistDir};

fn cfg(a: u32, b: u32) -> PuzzleConfig {
    PuzzleConfig { a, b, a_axis_stationary: false, b_axis_stationary: false }
}

fn sorted_pieces(s: &PuzzleState) -> Vec<u32> {
    let mut all: Vec<u32> = s.a_pieces.clone();
    all.extend_from_slice(&s.b_pieces[1..]);
    all.sort();
    all
}

#[test]
fn new_state_is_in_solved_order() {
    let s = PuzzleState::new(cfg(5, 3));
    assert_eq!(s.a_pieces, vec![0, 1, 2, 3, 4]);
    assert_eq!(s.b_pieces, vec![0, 5, 6]);
    assert_eq!(s.a_rot, 0);
    assert_eq!(s.b_rot, 0);
    assert!(s.is_solved(cfg(5, 3)));
}

#[test]
fn new_state_of_smallest_and_largest_puzzle() {
    let s = PuzzleState::new(cfg(2, 2));
    assert_eq!(s.a_pieces, vec![0, 1]);
    assert_eq!(s.b_pieces, vec![0, 2]);
    let s = PuzzleState::new(cfg(16, 16));
    assert_eq!(s.a_pieces, (0..16).collect::<Vec<u32>>());
    let mut b: Vec<u32> = (15..31).collect();
    b[0] = 0;
    assert_eq!(s.b_pieces, b);
    assert!(s.is_solved(cfg(16, 16)));
}

#[test]
fn clockwise_twist_moves_last_piece_to_shared_cell() {
    let mut s = PuzzleState::new(cfg(5, 3));
    s.twist_cw(Grip::A, 1);
    assert_eq!(s.a_pieces, vec![4, 0, 1, 2, 3]);
    assert_eq!(s.b_pieces, vec![4, 5, 6]);
    assert_eq!(s.a_rot, 4);
    assert_eq!(s.b_rot, 0);
    assert!(!s.is_solved(cfg(5, 3)));
}

#[test]
fn counterclockwise_twist_moves_second_piece_to_shared_cell() {
    let mut s = PuzzleState::new(cfg(5, 3));
    s.twist_ccw(Grip::A, 1);
    assert_eq!(s.a_pieces, vec![1, 2, 3, 4, 0]);
    assert_eq!(s.b_pieces, vec![1, 5, 6]);
    assert_eq!(s.a_rot, 1);
    assert_eq!(s.b_rot, 0);
}

#[test]
fn twist_of_disk_b_carries_shared_piece_over() {
    let mut s = PuzzleState::new(cfg(5, 3));
    s.twist_ccw(Grip::B, 1);
    assert_eq!(s.b_pieces, vec![5, 6, 0]);
    assert_eq!(s.a_pieces, vec![5, 1, 2, 3, 4]);
    assert_eq!(s.b_rot, 1);
    s.twist_cw(Grip::A, 2);
    assert_eq!(s.a_pieces, vec![3, 4, 5, 1, 2]);
    assert_eq!(s.b_pieces, vec![3, 6, 0]);
    assert_eq!(s.a_rot, 3);
}

#[test]
fn twist_amount_counts_modulo_disk_size() {
    let mut s = PuzzleState::new(cfg(5, 3));
    let mut t = PuzzleState::new(cfg(5, 3));
    s.twist_cw(Grip::A, 7);
    t.twist_cw(Grip::A, 2);
    assert_eq!(s, t);
    s.twist_ccw(Grip::B, u32::MAX);
    t.twist_ccw(Grip::B, u32::MAX % 3);
    assert_eq!(s, t);
}

#[test]
fn shared_cell_is_same_on_both_disks_after_many_twists() {
    let mut s = PuzzleState::new(cfg(7, 4));
    for k in 0..200u32 {
        if k % 3 == 0 {
            s.twist_cw(Grip::A, k);
        } else if k % 3 == 1 {
            s.twist_ccw(Grip::B, k / 2);
        } else {
            s.twist_cw(Grip::B, k + 1);
        }
        assert_eq!(s.a_pieces[0], s.b_pieces[0]);
        assert_eq!(sorted_pieces(&s), (0..10).collect::<Vec<u32>>());
        assert!(s.a_rot < 7 && s.b_rot < 4);
    }
}

#[test]
fn twist_keeps_cyclic_order_of_its_disk() {
    let mut s = PuzzleState::new(cfg(6, 5));
    s.twist_cw(Grip::B, 2);
    s.twist_ccw(Grip::A, 1);
    let before = s.clone();
    s.twist_cw(Grip::A, 4);
    let n = before.a_pieces.len();
    for i in 0..n {
        assert_eq!(s.a_pieces[(i + 4) % n], before.a_pieces[i]);
    }
    assert_eq!(s.b_pieces[1..], before.b_pieces[1..]);
    assert_eq!(s.b_pieces[0], s.a_pieces[0]);
}

#[test]
fn opposite_twist_restores_state() {
    for grip in [Grip::A, Grip::B] {
        for k in [0u32, 1, 2, 3, 4, 5, 6, 13, 1000] {
            let mut s = PuzzleState::new(cfg(5, 3));
            s.twist_cw(Grip::A, 2);
            s.twist_ccw(Grip::B, 1);
            let before = s.clone();
            s.twist_cw(grip, k);
            s.twist_ccw(grip, k);
            assert_eq!(s, before);
            s.twist_ccw(grip, k);
            s.twist_cw(grip, k);
            assert_eq!(s, before);
        }
    }
}

#[test]
fn full_turn_changes_nothing() {
    let mut s = PuzzleState::new(cfg(5, 3));
    s.twist_cw(Grip::A, 2);
    s.twist_cw(Grip::B, 1);
    let before = s.clone();
    s.twist_cw(Grip::A, 5);
    assert_eq!(s, before);
    s.twist_ccw(Grip::A, 10);
    assert_eq!(s, before);
    s.twist_cw(Grip::B, 3);
    assert_eq!(s, before);
    s.twist_ccw(Grip::B, 3);
    assert_eq!(s, before);
}

#[test]
fn solved_check_compares_pieces_not_counters() {
    let mut s = PuzzleState::new(cfg(5, 3));
    s.a_rot = 3;
    assert!(s.is_solved(cfg(5, 3)));
    assert!(!s.is_solved(cfg(5, 4)));
    assert!(!s.is_solved(cfg(4, 3)));
    s.b_pieces[2] = 5;
    assert!(!s.is_solved(cfg(5, 3)));
}

#[test]
fn accessors_read_the_named_disk() {
    let mut s = PuzzleState::new(cfg(5, 3));
    s.twist_cw(Grip::A, 1);
    assert_eq!(s.rot(Grip::A), 4);
    assert_eq!(s.rot(Grip::B), 0);
    assert_eq!(s.pieces(Grip::A), &[4, 0, 1, 2, 3]);
    assert_eq!(s.pieces(Grip::B), &[4, 5, 6]);
    assert_eq!(s.n(Grip::A), 5);
    assert_eq!(s.n(Grip::B), 3);
}

#[test]
fn twist_command_chooses_direction() {
    let mut s = PuzzleState::new(cfg(5, 3));
    let mut t = PuzzleState::new(cfg(5, 3));
    s.twist(Twist { grip: Grip::A, direction: TwistDir::Cw, amount: 2 });
    t.twist_cw(Grip::A, 2);
    assert_eq!(s, t);
    s.twist(Twist { grip: Grip::B, direction: TwistDir::Ccw, amount: 1 });
    t.twist_ccw(Grip::B, 1);
    assert_eq!(s, t);
}

#[test]
fn grips_and_directions_have_opposites() {
    assert_eq!(Grip::A.other(), Grip::B);
    assert_eq!(Grip::B.other(), Grip::A);
    assert_eq!(TwistDir::Cw.sign(), -1);
    assert_eq!(TwistDir::Ccw.sign(), 1);
    assert_eq!(TwistDir::Cw.reverse(), TwistDir::Ccw);
    assert_eq!(TwistDir::Ccw.reverse(), TwistDir::Cw);
}
