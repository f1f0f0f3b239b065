//! The arrangement of pieces on the two disks, and the twists that change it.

use super::config::{PuzzleConfig, MAX_SECTORS, MIN_SECTORS};
use super::rotation::{rotate_left, rotate_right, rotated_left, rotated_right};
use super::{Grip, Twist, TwistDir};
use vstd::prelude::*;

verus! {

/// What a [`PuzzleState`] stands for: the pieces on each disk, read from the
/// shared cell onwards, and how far each disk has been turned in all.
#[verifier::ext_equal]
pub struct Arrangement {
    /// Net turn of disk `A`, in sectors.
    pub a_rot: int,
    /// Net turn of disk `B`, in sectors.
    pub b_rot: int,
    /// Pieces on disk `A`; index 0 is the shared cell.
    pub a_pieces: Seq<u32>,
    /// Pieces on disk `B`; index 0 is the shared cell.
    pub b_pieces: Seq<u32>,
}

/// The piece that cell `i` of `grip` holds when a puzzle whose disk `A` has
/// `a` sectors is solved. Disk `A` holds `0, 1, ..` in order; disk `B` holds
/// the shared piece `0` and then the numbers that follow those of disk `A`.
pub open spec fn solved_piece(a: int, grip: Grip, i: int) -> int {
    match grip {
        Grip::A => i,
        Grip::B => if i == 0 {
            0
        } else {
            a - 1 + i
        },
    }
}

impl Arrangement {
    /// The pieces on `grip`.
    pub open spec fn pieces(self, grip: Grip) -> Seq<u32> {
        match grip {
            Grip::A => self.a_pieces,
            Grip::B => self.b_pieces,
        }
    }

    /// The net turn of `grip`.
    pub open spec fn rot(self, grip: Grip) -> int {
        match grip {
            Grip::A => self.a_rot,
            Grip::B => self.b_rot,
        }
    }

    /// The number of cells on `grip`.
    pub open spec fn n(self, grip: Grip) -> int {
        self.pieces(grip).len() as int
    }

    /// The invariant of every arrangement: each disk has a supported number of
    /// cells, each turn counter is below its disk's size, and both disks see
    /// the same piece in the shared cell.
    pub open spec fn wf(self) -> bool {
        &&& MIN_SECTORS <= self.a_pieces.len() <= MAX_SECTORS
        &&& MIN_SECTORS <= self.b_pieces.len() <= MAX_SECTORS
        &&& 0 <= self.a_rot < self.a_pieces.len()
        &&& 0 <= self.b_rot < self.b_pieces.len()
        &&& self.a_pieces[0] == self.b_pieces[0]
    }

    /// `self` with the cells of `grip` replaced by `pieces` and its turn
    /// counter by `rot`, and with the first of `pieces` written into the shared
    /// cell of the other disk.
    pub open spec fn with_disk(self, grip: Grip, pieces: Seq<u32>, rot: int) -> Arrangement {
        match grip {
            Grip::A => Arrangement {
                a_rot: rot,
                b_rot: self.b_rot,
                a_pieces: pieces,
                b_pieces: self.b_pieces.update(0, pieces[0]),
            },
            Grip::B => Arrangement {
                a_rot: self.a_rot,
                b_rot: rot,
                a_pieces: self.a_pieces.update(0, pieces[0]),
                b_pieces: pieces,
            },
        }
    }

    /// `self` after `grip` is turned counterclockwise by `amt` sectors.
    pub open spec fn twist_ccw(self, grip: Grip, amt: int) -> Arrangement {
        let n = self.n(grip);
        let k = amt % n;
        self.with_disk(grip, rotate_left(self.pieces(grip), k), (self.rot(grip) + k) % n)
    }

    /// `self` after `grip` is turned clockwise by `amt` sectors.
    pub open spec fn twist_cw(self, grip: Grip, amt: int) -> Arrangement {
        let n = self.n(grip);
        let k = amt % n;
        self.with_disk(grip, rotate_right(self.pieces(grip), k), (self.rot(grip) + n - k) % n)
    }

    /// `self` after the twist `t`.
    pub open spec fn twist(self, t: Twist) -> Arrangement {
        match t.direction {
            TwistDir::Cw => self.twist_cw(t.grip, t.amount as int),
            TwistDir::Ccw => self.twist_ccw(t.grip, t.amount as int),
        }
    }

    /// `self` after the twists of `moves`, made in order.
    pub open spec fn after(self, moves: Seq<Twist>) -> Arrangement
        decreases moves.len(),
    {
        if moves.len() == 0 {
            self
        } else {
            self.after(moves.drop_last()).twist(moves.last())
        }
    }

    /// Whether `self` can be had from the solved arrangement of a puzzle with
    /// `a` and `b` sectors by twists alone.
    pub open spec fn reachable(self, a: int, b: int) -> bool {
        exists|moves: Seq<Twist>| self == #[trigger] Arrangement::solved(a, b).after(moves)
    }

    /// Every piece of the puzzle once: the cells of disk `A`, then those of
    /// disk `B` but for the shared cell.
    pub open spec fn all_pieces(self) -> Seq<u32> {
        self.a_pieces + self.b_pieces.subrange(1, self.b_pieces.len() as int)
    }

    /// Whether the pieces are the numbers from 0 up to their count, each in
    /// exactly one cell, the shared cell counted once.
    pub open spec fn is_permutation(self) -> bool {
        &&& self.all_pieces().no_duplicates()
        &&& forall|i: int|
            0 <= i < self.all_pieces().len() ==> #[trigger] self.all_pieces()[i]
                < self.all_pieces().len()
    }

    /// The solved arrangement of a puzzle with `a` and `b` sectors.
    pub open spec fn solved(a: int, b: int) -> Arrangement {
        Arrangement {
            a_rot: 0,
            b_rot: 0,
            a_pieces: Seq::new(a as nat, |i: int| solved_piece(a, Grip::A, i) as u32),
            b_pieces: Seq::new(b as nat, |i: int| solved_piece(a, Grip::B, i) as u32),
        }
    }

    /// Whether every cell holds the piece it holds in the solved arrangement of
    /// a puzzle with `a` and `b` sectors. The turn counters are not looked at.
    pub open spec fn is_solved(self, a: int, b: int) -> bool {
        &&& self.a_pieces.len() == a
        &&& self.b_pieces.len() == b
        &&& forall|i: int| 0 <= i < a ==> self.a_pieces[i] as int == solved_piece(a, Grip::A, i)
        &&& forall|i: int| 0 <= i < b ==> self.b_pieces[i] as int == solved_piece(a, Grip::B, i)
    }
}

/// The pieces of the puzzle and where they are.
#[derive(Debug, PartialEq, Eq)]
pub struct PuzzleState {
    /// Net turn of disk `A`, in sectors, below its size.
    pub a_rot: u32,
    /// Net turn of disk `B`, in sectors, below its size.
    pub b_rot: u32,
    /// Pieces on disk `A`; index 0 is the shared cell.
    pub a_pieces: Vec<u32>,
    /// Pieces on disk `B`; index 0 is the shared cell.
    pub b_pieces: Vec<u32>,
}

impl View for PuzzleState {
    type V = Arrangement;

    open spec fn view(&self) -> Arrangement {
        Arrangement {
            a_rot: self.a_rot as int,
            b_rot: self.b_rot as int,
            a_pieces: self.a_pieces@,
            b_pieces: self.b_pieces@,
        }
    }
}

impl Clone for PuzzleState {
    fn clone(&self) -> (r: Self)
        ensures
            r@ == self@,
    {
        let r = PuzzleState {
            a_rot: self.a_rot,
            b_rot: self.b_rot,
            a_pieces: self.a_pieces.clone(),
            b_pieces: self.b_pieces.clone(),
        };
        assert(r@ =~= self@);
        r
    }
}

impl PuzzleState {
    /// Whether `self` meets the invariant of arrangements.
    pub open spec fn wf(&self) -> bool {
        self@.wf()
    }

    /// The solved state of a puzzle with the disk sizes of `config`.
    pub fn new(config: PuzzleConfig) -> (r: Self)
        requires
            config.valid(),
        ensures
            r@ == Arrangement::solved(config.a as int, config.b as int),
            r.wf(),
            r@.is_solved(config.a as int, config.b as int),
            r@.is_permutation(),
    {
        let mut a_pieces: Vec<u32> = Vec::new();
        let mut i: u32 = 0;
        while i < config.a
            invariant
                config.valid(),
                i <= config.a,
                a_pieces.len() == i,
                forall|j: int| 0 <= j < i ==> a_pieces[j] == j,
            decreases config.a - i,
        {
            a_pieces.push(i);
            i = i + 1;
        }
        let mut b_pieces: Vec<u32> = Vec::new();
        b_pieces.push(0);
        let mut i: u32 = 1;
        while i < config.b
            invariant
                config.valid(),
                1 <= i <= config.b,
                b_pieces.len() == i,
                b_pieces[0] == 0,
                forall|j: int| 1 <= j < i ==> b_pieces[j] == config.a - 1 + j,
            decreases config.b - i,
        {
            b_pieces.push(config.a - 1 + i);
            i = i + 1;
        }
        let r = PuzzleState { a_rot: 0, b_rot: 0, a_pieces, b_pieces };
        proof {
            assert(r@ =~= Arrangement::solved(config.a as int, config.b as int));
            super::twist_laws::lemma_solved_is_solved(config.a as int, config.b as int);
        }
        r
    }

    /// The net turn of `grip`.
    pub fn rot(&self, grip: Grip) -> (r: u32)
        ensures
            r == self@.rot(grip),
    {
        match grip {
            Grip::A => self.a_rot,
            Grip::B => self.b_rot,
        }
    }

    /// The pieces on `grip`, from the shared cell onwards.
    pub fn pieces(&self, grip: Grip) -> (r: &[u32])
        ensures
            r@ == self@.pieces(grip),
    {
        match grip {
            Grip::A => self.a_pieces.as_slice(),
            Grip::B => self.b_pieces.as_slice(),
        }
    }

    /// The number of cells on `grip`.
    pub fn n(&self, grip: Grip) -> (r: u32)
        requires
            self@.n(grip) <= u32::MAX,
        ensures
            r == self@.n(grip),
    {
        self.pieces(grip).len() as u32
    }

    /// Replaces the cells and the turn counter of `grip`.
    fn set_disk(&mut self, grip: Grip, pieces: Vec<u32>, rot: u32)
        ensures
            final(self)@.pieces(grip) == pieces@,
            final(self)@.rot(grip) == rot,
            final(self)@.pieces(grip.other()) == old(self)@.pieces(grip.other()),
            final(self)@.rot(grip.other()) == old(self)@.rot(grip.other()),
    {
        match grip {
            Grip::A => {
                self.a_rot = rot;
                self.a_pieces = pieces;
            },
            Grip::B => {
                self.b_rot = rot;
                self.b_pieces = pieces;
            },
        }
    }

    /// Writes `p` into the shared cell, as both disks see it.
    fn set_shared_piece(&mut self, p: u32)
        requires
            old(self).a_pieces.len() > 0,
            old(self).b_pieces.len() > 0,
        ensures
            final(self)@ == (Arrangement {
                a_pieces: old(self)@.a_pieces.update(0, p),
                b_pieces: old(self)@.b_pieces.update(0, p),
                ..old(self)@
            }),
    {
        self.a_pieces[0] = p;
        self.b_pieces[0] = p;
    }

    /// Turns `grip` counterclockwise by `amt` sectors, counted modulo the
    /// disk's size: its pieces move `amt` cells towards the front, and the
    /// piece that arrives in the shared cell is seen by both disks.
    pub fn twist_ccw(&mut self, grip: Grip, amt: u32)
        requires
            old(self).wf(),
        ensures
            final(self)@ == old(self)@.twist_ccw(grip, amt as int),
            final(self).wf(),
            old(self)@.is_permutation() ==> final(self)@.is_permutation(),
    {
        let n: u32 = self.n(grip);
        let k: u32 = amt % n;
        let rot: u32 = (self.rot(grip) + k) % n;
        let turned: Vec<u32> = rotated_left(self.pieces(grip), k as usize);
        let shared: u32 = turned[0];
        self.set_disk(grip, turned, rot);
        self.set_shared_piece(shared);
        proof {
            assert(self@ =~= old(self)@.twist_ccw(grip, amt as int));
            if old(self)@.is_permutation() {
                super::twist_laws::lemma_twist_keeps_permutation(old(self)@, grip, amt as int);
            }
        }
    }

    /// Turns `grip` clockwise by `amt` sectors, counted modulo the disk's
    /// size: its pieces move `amt` cells towards the back, and the piece that
    /// arrives in the shared cell is seen by both disks.
    pub fn twist_cw(&mut self, grip: Grip, amt: u32)
        requires
            old(self).wf(),
        ensures
            final(self)@ == old(self)@.twist_cw(grip, amt as int),
            final(self).wf(),
            old(self)@.is_permutation() ==> final(self)@.is_permutation(),
    {
        let n: u32 = self.n(grip);
        let k: u32 = amt % n;
        let rot: u32 = (self.rot(grip) + n - k) % n;
        let turned: Vec<u32> = rotated_right(self.pieces(grip), k as usize);
        let shared: u32 = turned[0];
        self.set_disk(grip, turned, rot);
        self.set_shared_piece(shared);
        proof {
            assert(self@ =~= old(self)@.twist_cw(grip, amt as int));
            if old(self)@.is_permutation() {
                super::twist_laws::lemma_twist_keeps_permutation(old(self)@, grip, amt as int);
            }
        }
    }

    /// Makes the twist `t`.
    pub fn twist(&mut self, t: Twist)
        requires
            old(self).wf(),
        ensures
            final(self)@ == old(self)@.twist(t),
            final(self).wf(),
            old(self)@.is_permutation() ==> final(self)@.is_permutation(),
    {
        match t.direction {
            TwistDir::Cw => self.twist_cw(t.grip, t.amount),
            TwistDir::Ccw => self.twist_ccw(t.grip, t.amount),
        }
    }

    /// Whether every cell holds the piece it held when the puzzle of `config`
    /// was new. Only the pieces are compared, not the turn counters.
    pub fn is_solved(&self, config: PuzzleConfig) -> (r: bool)
        ensures
            r == self@.is_solved(config.a as int, config.b as int),
    {
        if self.a_pieces.len() != config.a as usize || self.b_pieces.len() != config.b as usize {
            return false;
        }
        let mut i: usize = 0;
        while i < self.a_pieces.len()
            invariant
                self.a_pieces.len() == config.a,
                i <= self.a_pieces.len(),
                forall|j: int| 0 <= j < i ==> self.a_pieces[j] as int == j,
            decreases self.a_pieces.len() - i,
        {
            if self.a_pieces[i] as usize != i {
                return false;
            }
            i = i + 1;
        }
        let mut i: usize = 0;
        while i < self.b_pieces.len()
            invariant
                self.a_pieces.len() == config.a,
                self.b_pieces.len() == config.b,
                i <= self.b_pieces.len(),
                forall|j: int| 0 <= j < config.a ==> self.a_pieces[j] as int == j,
                forall|j: int|
                    0 <= j < i ==> self.b_pieces[j] as int == solved_piece(
                        config.a as int,
                        Grip::B,
                        j,
                    ),
            decreases self.b_pieces.len() - i,
        {
            let want: u64 = if i == 0 {
                0
            } else {
                config.a as u64 + i as u64 - 1
            };
            if self.b_pieces[i] as u64 != want {
                return false;
            }
            i = i + 1;
        }
        true
    }
}

} // verus!
