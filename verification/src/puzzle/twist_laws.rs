//! What holds of every arrangement and every twist.

use super::config::{MAX_SECTORS, MIN_SECTORS};
use super::rotation::{
    is_rotation_of, lemma_rotate_full_turns, lemma_rotate_inverse, lemma_rotate_is_rotation,
    rotate_left, rotate_right,
};
use super::state::{solved_piece, Arrangement};
use super::{Grip, Twist, TwistDir};
use vstd::prelude::*;

verus! {

/// A twist keeps the invariant of arrangements. In particular both disks
/// still see the same piece in the shared cell.
pub proof fn lemma_twist_keeps_invariant(v: Arrangement, grip: Grip, amt: int)
    requires
        v.wf(),
    ensures
        v.twist_cw(grip, amt).wf(),
        v.twist_ccw(grip, amt).wf(),
        v.twist_cw(grip, amt).a_pieces[0] == v.twist_cw(grip, amt).b_pieces[0],
        v.twist_ccw(grip, amt).a_pieces[0] == v.twist_ccw(grip, amt).b_pieces[0],
        v.twist_cw(grip, amt).n(Grip::A) == v.n(Grip::A),
        v.twist_cw(grip, amt).n(Grip::B) == v.n(Grip::B),
        v.twist_ccw(grip, amt).n(Grip::A) == v.n(Grip::A),
        v.twist_ccw(grip, amt).n(Grip::B) == v.n(Grip::B),
{
}

/// The solved arrangement meets the invariant and counts as solved.
pub proof fn lemma_solved_is_solved(a: int, b: int)
    requires
        MIN_SECTORS <= a <= MAX_SECTORS,
        MIN_SECTORS <= b <= MAX_SECTORS,
    ensures
        Arrangement::solved(a, b).wf(),
        Arrangement::solved(a, b).is_solved(a, b),
        Arrangement::solved(a, b).is_permutation(),
{
    let s = Arrangement::solved(a, b);
    let all = s.all_pieces();
    assert forall|i: int| 0 <= i < all.len() implies all[i] as int == i by {
        if i >= a {
            assert(all[i] == s.b_pieces[i - a + 1]);
        }
    }
}

/// One more twist at the end of a run of twists is one more twist of the
/// arrangement that the run gives.
pub proof fn lemma_after_push(v: Arrangement, moves: Seq<Twist>, t: Twist)
    ensures
        v.after(moves.push(t)) == v.after(moves).twist(t),
{
    assert(moves.push(t).drop_last() =~= moves);
}

/// Whatever twists are made from a solved puzzle, the invariant holds: both
/// disks see the same piece in the shared cell, and no piece is lost or
/// doubled.
pub proof fn lemma_reachable_invariant(a: int, b: int, moves: Seq<Twist>)
    requires
        MIN_SECTORS <= a <= MAX_SECTORS,
        MIN_SECTORS <= b <= MAX_SECTORS,
    ensures
        Arrangement::solved(a, b).after(moves).wf(),
        Arrangement::solved(a, b).after(moves).a_pieces[0] == Arrangement::solved(a, b).after(
            moves,
        ).b_pieces[0],
        Arrangement::solved(a, b).after(moves).n(Grip::A) == a,
        Arrangement::solved(a, b).after(moves).n(Grip::B) == b,
        Arrangement::solved(a, b).after(moves).is_permutation(),
    decreases moves.len(),
{
    if moves.len() == 0 {
        lemma_solved_is_solved(a, b);
    } else {
        let before = Arrangement::solved(a, b).after(moves.drop_last());
        let t = moves.last();
        lemma_reachable_invariant(a, b, moves.drop_last());
        lemma_twist_keeps_invariant(before, t.grip, t.amount as int);
        lemma_twist_keeps_permutation(before, t.grip, t.amount as int);
    }
}

/// A twist turns the pieces of its disk as a ring: their cyclic order stays
/// and only the starting point moves. On the other disk every cell but the
/// shared one keeps its piece.
pub proof fn lemma_twist_keeps_cyclic_order(v: Arrangement, grip: Grip, amt: int)
    requires
        v.wf(),
    ensures
        is_rotation_of(v.twist_cw(grip, amt).pieces(grip), v.pieces(grip)),
        is_rotation_of(v.twist_ccw(grip, amt).pieces(grip), v.pieces(grip)),
        v.twist_cw(grip, amt).pieces(grip) == rotate_right(v.pieces(grip), amt),
        v.twist_ccw(grip, amt).pieces(grip) == rotate_left(v.pieces(grip), amt),
        forall|i: int|
            1 <= i < v.n(grip.other()) ==> v.twist_cw(grip, amt).pieces(grip.other())[i]
                == v.pieces(grip.other())[i],
        forall|i: int|
            1 <= i < v.n(grip.other()) ==> v.twist_ccw(grip, amt).pieces(grip.other())[i]
                == v.pieces(grip.other())[i],
{
    let k = amt % v.n(grip);
    super::rotation::lemma_rotate_mod(v.pieces(grip), amt);
    lemma_rotate_is_rotation(v.pieces(grip), k);
}

/// Counting `k` down and then up again, or up and then down, modulo `n`
/// comes back to where it started.
proof fn lemma_counter_inverse(r: int, k: int, n: int)
    requires
        0 <= r < n,
        0 <= k < n,
    ensures
        ((r + n - k) % n + k) % n == r,
        ((r + k) % n + n - k) % n == r,
{
    vstd::arithmetic::div_mod::lemma_small_mod(r as nat, n as nat);
    vstd::arithmetic::div_mod::lemma_mod_add_multiples_vanish(r, n);
    if r >= k {
        vstd::arithmetic::div_mod::lemma_mod_add_multiples_vanish(r - k, n);
        vstd::arithmetic::div_mod::lemma_small_mod((r - k) as nat, n as nat);
        assert((r + n - k) % n == r - k);
    } else {
        vstd::arithmetic::div_mod::lemma_small_mod((r + n - k) as nat, n as nat);
        assert((r + n - k) % n == r + n - k);
    }
    if r + k < n {
        vstd::arithmetic::div_mod::lemma_small_mod((r + k) as nat, n as nat);
        assert((r + k) % n == r + k);
    } else {
        vstd::arithmetic::div_mod::lemma_mod_add_multiples_vanish(r + k - n, n);
        vstd::arithmetic::div_mod::lemma_small_mod((r + k - n) as nat, n as nat);
        assert((r + k) % n == r + k - n);
    }
}

/// Putting back the cells and the counter of a disk undoes any change to
/// that disk.
proof fn lemma_with_disk_undo(v: Arrangement, grip: Grip, pieces: Seq<u32>, rot: int)
    requires
        v.wf(),
        pieces.len() == v.n(grip),
    ensures
        v.with_disk(grip, pieces, rot).with_disk(grip, v.pieces(grip), v.rot(grip)) == v,
{
    let q = v.pieces(grip.other());
    assert(q.update(0, pieces[0]).update(0, v.pieces(grip)[0]) =~= q);
    assert(v.with_disk(grip, pieces, rot).with_disk(grip, v.pieces(grip), v.rot(grip)) =~= v);
}

/// A clockwise twist followed by the same twist counterclockwise gives back
/// the arrangement it started from.
pub proof fn lemma_twist_cw_then_ccw(v: Arrangement, grip: Grip, amt: int)
    requires
        v.wf(),
    ensures
        v.twist_cw(grip, amt).twist_ccw(grip, amt) == v,
{
    let n = v.n(grip);
    let k = amt % n;
    let p = v.pieces(grip);
    let r = v.rot(grip);
    let there = v.with_disk(grip, rotate_right(p, k), (r + n - k) % n);
    assert(v.twist_cw(grip, amt) == there);
    assert(there.pieces(grip) == rotate_right(p, k));
    assert(there.rot(grip) == (r + n - k) % n);
    assert(there.n(grip) == n);
    assert(rotate_left(rotate_right(p, k), k) == p) by {
        lemma_rotate_inverse(p, k);
    }
    assert(((r + n - k) % n + k) % n == r) by {
        lemma_counter_inverse(r, k, n);
    }
    assert(there.twist_ccw(grip, amt) == there.with_disk(grip, p, r));
    lemma_with_disk_undo(v, grip, rotate_right(p, k), (r + n - k) % n);
}

/// A counterclockwise twist followed by the same twist clockwise gives back
/// the arrangement it started from.
pub proof fn lemma_twist_ccw_then_cw(v: Arrangement, grip: Grip, amt: int)
    requires
        v.wf(),
    ensures
        v.twist_ccw(grip, amt).twist_cw(grip, amt) == v,
{
    let n = v.n(grip);
    let k = amt % n;
    let p = v.pieces(grip);
    let r = v.rot(grip);
    let there = v.with_disk(grip, rotate_left(p, k), (r + k) % n);
    assert(v.twist_ccw(grip, amt) == there);
    assert(there.pieces(grip) == rotate_left(p, k));
    assert(there.rot(grip) == (r + k) % n);
    assert(there.n(grip) == n);
    assert(rotate_right(rotate_left(p, k), k) == p) by {
        lemma_rotate_inverse(p, k);
    }
    assert(((r + k) % n + n - k) % n == r) by {
        lemma_counter_inverse(r, k, n);
    }
    assert(there.twist_cw(grip, amt) == there.with_disk(grip, p, r));
    lemma_with_disk_undo(v, grip, rotate_left(p, k), (r + k) % n);
}

/// A twist by as many sectors as the disk has, or by any multiple of that,
/// changes nothing.
pub proof fn lemma_full_turn(v: Arrangement, grip: Grip, turns: int)
    requires
        v.wf(),
    ensures
        v.twist_cw(grip, v.n(grip)) == v,
        v.twist_ccw(grip, v.n(grip)) == v,
        v.twist_cw(grip, turns * v.n(grip)) == v,
        v.twist_ccw(grip, turns * v.n(grip)) == v,
{
    let n = v.n(grip);
    let r = v.rot(grip);
    vstd::arithmetic::div_mod::lemma_mod_self_0(n);
    vstd::arithmetic::div_mod::lemma_mod_multiples_basic(turns, n);
    lemma_rotate_full_turns(v.pieces(grip), 0);
    vstd::arithmetic::div_mod::lemma_small_mod(r as nat, n as nat);
    vstd::arithmetic::div_mod::lemma_mod_add_multiples_vanish(r, n);
    assert(v.twist_cw(grip, n) =~= v);
    assert(v.twist_ccw(grip, n) =~= v);
    assert(v.twist_cw(grip, turns * n) =~= v);
    assert(v.twist_ccw(grip, turns * n) =~= v);
}

/// Where each piece lies once, every cell holds a number below the count of
/// pieces.
pub proof fn lemma_pieces_in_range(v: Arrangement, grip: Grip, i: int)
    requires
        v.wf(),
        v.is_permutation(),
        0 <= i < v.n(grip),
    ensures
        v.pieces(grip)[i] < v.n(Grip::A) + v.n(Grip::B) - 1,
{
    let all = v.all_pieces();
    let a = v.n(Grip::A);
    match grip {
        Grip::A => {
            assert(all[i] == v.a_pieces[i]);
        },
        Grip::B => {
            if i == 0 {
                assert(all[0] == v.a_pieces[0]);
            } else {
                assert(all[a + i - 1] == v.b_pieces[i]);
            }
        },
    }
}

/// A twist neither loses nor doubles a piece.
pub proof fn lemma_twist_keeps_permutation(v: Arrangement, grip: Grip, amt: int)
    requires
        v.wf(),
        v.is_permutation(),
    ensures
        v.twist_cw(grip, amt).is_permutation(),
        v.twist_ccw(grip, amt).is_permutation(),
{
    let n = v.n(grip);
    let k = amt % n;
    lemma_ring_keeps_permutation(v, grip, rotate_left(v.pieces(grip), k), k);
    super::rotation::lemma_rotate_right_is_left(v.pieces(grip), k);
    lemma_ring_keeps_permutation(v, grip, rotate_right(v.pieces(grip), k), -k);
}

/// Once the pieces of one disk are turned as a ring and the shared cell of
/// the other disk is brought in line, the pieces are still a permutation.
proof fn lemma_ring_keeps_permutation(v: Arrangement, grip: Grip, turned: Seq<u32>, k: int)
    requires
        v.wf(),
        v.is_permutation(),
        turned == rotate_left(v.pieces(grip), k),
    ensures
        v.with_disk(grip, turned, 0).is_permutation(),
{
    let w = v.with_disk(grip, turned, 0);
    let a = v.n(Grip::A);
    let b = v.n(Grip::B);
    let n = v.n(grip);
    let old_all = v.all_pieces();
    let new_all = w.all_pieces();
    assert(new_all.len() == old_all.len());
    // Where in the old list the piece at place `i` of the new list stood.
    let origin = |i: int|
        match grip {
            Grip::A => if i < a {
                (i + k) % a
            } else {
                i
            },
            Grip::B => if i == 0 {
                let j = k % b;
                if j == 0 {
                    0
                } else {
                    a + j - 1
                }
            } else if i < a {
                i
            } else {
                let j = (i - a + 1 + k) % b;
                if j == 0 {
                    0
                } else {
                    a + j - 1
                }
            },
        };
    assert forall|i: int| 0 <= i < new_all.len() implies 0 <= origin(i) < old_all.len()
        && new_all[i] == old_all[origin(i)] by {
        vstd::arithmetic::div_mod::lemma_mod_bound(i + k, a);
        vstd::arithmetic::div_mod::lemma_mod_bound(k, b);
        vstd::arithmetic::div_mod::lemma_mod_bound(i - a + 1 + k, b);
        match grip {
            Grip::A => {
                if i < a {
                    assert(new_all[i] == turned[i]);
                } else {
                    assert(new_all[i] == w.b_pieces[i - a + 1]);
                    assert(old_all[i] == v.b_pieces[i - a + 1]);
                }
            },
            Grip::B => {
                if i == 0 {
                    assert(new_all[0] == turned[0]);
                    let j = k % b;
                    assert(turned[0] == v.b_pieces[j]);
                    if j != 0 {
                        assert(old_all[a + j - 1] == v.b_pieces[j]);
                    }
                } else if i < a {
                    assert(new_all[i] == v.a_pieces[i]);
                } else {
                    let j = (i - a + 1 + k) % b;
                    assert(new_all[i] == turned[i - a + 1]);
                    assert(turned[i - a + 1] == v.b_pieces[j]);
                    if j != 0 {
                        assert(old_all[a + j - 1] == v.b_pieces[j]);
                    }
                }
            },
        }
    }
    assert forall|i: int, j: int|
        0 <= i < new_all.len() && 0 <= j < new_all.len() && i != j implies new_all[i]
        != new_all[j] by {
        assert(new_all[i] == old_all[origin(i)]);
        assert(new_all[j] == old_all[origin(j)]);
        assert(origin(i) != origin(j)) by {
            lemma_mod_injective(i, j, k, a);
            lemma_mod_injective(i - a + 1, j - a + 1, k, b);
            lemma_mod_injective(0, i - a + 1, k, b);
            lemma_mod_injective(0, j - a + 1, k, b);
            vstd::arithmetic::div_mod::lemma_mod_bound(i + k, a);
            vstd::arithmetic::div_mod::lemma_mod_bound(j + k, a);
            vstd::arithmetic::div_mod::lemma_mod_bound(k, b);
            vstd::arithmetic::div_mod::lemma_mod_bound(i - a + 1 + k, b);
            vstd::arithmetic::div_mod::lemma_mod_bound(j - a + 1 + k, b);
        }
    }
    assert forall|i: int| 0 <= i < new_all.len() implies #[trigger] new_all[i] < new_all.len() by {
        assert(new_all[i] == old_all[origin(i)]);
    }
}

/// Two places of a ring that differ still differ after the ring is turned.
proof fn lemma_mod_injective(i: int, j: int, k: int, n: int)
    requires
        n > 0,
    ensures
        0 <= i < n && 0 <= j < n && i != j ==> (i + k) % n != (j + k) % n,
{
    if 0 <= i < n && 0 <= j < n && i != j && (i + k) % n == (j + k) % n {
        vstd::arithmetic::div_mod::lemma_fundamental_div_mod(i + k, n);
        vstd::arithmetic::div_mod::lemma_fundamental_div_mod(j + k, n);
        let qi = (i + k) / n;
        let qj = (j + k) / n;
        assert(i - j == n * qi - n * qj);
        assert(n * qi - n * qj == n * (qi - qj)) by (nonlinear_arith);
        if qi - qj >= 1 {
            assert(n * (qi - qj) >= n) by (nonlinear_arith)
                requires
                    qi - qj >= 1,
                    n > 0,
            ;
        } else if qi - qj <= -1 {
            assert(n * (qi - qj) <= -n) by (nonlinear_arith)
                requires
                    qi - qj <= -1,
                    n > 0,
            ;
        } else {
            assert(n * (qi - qj) == 0) by (nonlinear_arith)
                requires
                    qi - qj == 0,
            ;
        }
    }
}

} // verus!
