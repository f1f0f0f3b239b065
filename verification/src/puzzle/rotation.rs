//! Cyclic rotation of sequences, the one motion a disk can make.

use vstd::prelude::*;

verus! {

/// `s` turned so that the item at index `k` comes first: the first `k` items
/// move to the end. `k` counts modulo the length, and may be negative.
pub open spec fn rotate_left<T>(s: Seq<T>, k: int) -> Seq<T> {
    Seq::new(s.len(), |i: int| s[(i + k) % (s.len() as int)])
}

/// `s` turned so that the first item lands at index `k`: the last `k` items
/// move to the front. `k` counts modulo the length, and may be negative.
pub open spec fn rotate_right<T>(s: Seq<T>, k: int) -> Seq<T> {
    Seq::new(s.len(), |i: int| s[(i - k) % (s.len() as int)])
}

/// Whether `t` is `s` turned by some offset: the cyclic order of the items is
/// the same and only the starting point differs.
pub open spec fn is_rotation_of<T>(t: Seq<T>, s: Seq<T>) -> bool {
    exists|k: int| 0 <= k < s.len() && t == #[trigger] rotate_left(s, k)
}

/// Turning by nothing, or by a whole number of full turns, changes nothing.
pub proof fn lemma_rotate_full_turns<T>(s: Seq<T>, turns: int)
    requires
        s.len() > 0,
    ensures
        rotate_left(s, turns * (s.len() as int)) == s,
        rotate_right(s, turns * (s.len() as int)) == s,
{
    let n = s.len() as int;
    assert forall|i: int| 0 <= i < n implies #[trigger] rotate_left(s, turns * n)[i] == s[i] by {
        vstd::arithmetic::div_mod::lemma_mod_multiples_vanish(turns, i, n);
        vstd::arithmetic::div_mod::lemma_small_mod(i as nat, n as nat);
        assert(n * turns + i == i + turns * n) by (nonlinear_arith);
    }
    assert forall|i: int| 0 <= i < n implies #[trigger] rotate_right(s, turns * n)[i] == s[i] by {
        vstd::arithmetic::div_mod::lemma_mod_multiples_vanish(-turns, i, n);
        vstd::arithmetic::div_mod::lemma_small_mod(i as nat, n as nat);
        assert(n * (-turns) + i == i - turns * n) by (nonlinear_arith);
    }
    assert(rotate_left(s, turns * n) =~= s);
    assert(rotate_right(s, turns * n) =~= s);
}

/// A turn to the left by `k` places cuts off the first `k` items and puts
/// them at the end; a turn to the right does so with the last `k` items and
/// the front.
pub proof fn lemma_rotate_as_concat<T>(s: Seq<T>, k: int)
    requires
        0 <= k <= s.len(),
    ensures
        rotate_left(s, k) == s.subrange(k, s.len() as int) + s.subrange(0, k),
        rotate_right(s, k) == s.subrange(s.len() - k, s.len() as int) + s.subrange(
            0,
            s.len() - k,
        ),
{
    let n = s.len() as int;
    let left = s.subrange(k, n) + s.subrange(0, k);
    let right = s.subrange(n - k, n) + s.subrange(0, n - k);
    assert forall|i: int| 0 <= i < n implies #[trigger] rotate_left(s, k)[i] == left[i] by {
        if i + k < n {
            vstd::arithmetic::div_mod::lemma_small_mod((i + k) as nat, n as nat);
        } else {
            vstd::arithmetic::div_mod::lemma_mod_add_multiples_vanish(i + k - n, n);
            vstd::arithmetic::div_mod::lemma_small_mod((i + k - n) as nat, n as nat);
        }
    }
    assert forall|i: int| 0 <= i < n implies #[trigger] rotate_right(s, k)[i] == right[i] by {
        if i - k >= 0 {
            vstd::arithmetic::div_mod::lemma_small_mod((i - k) as nat, n as nat);
        } else {
            vstd::arithmetic::div_mod::lemma_mod_add_multiples_vanish(i - k, n);
            vstd::arithmetic::div_mod::lemma_small_mod((i - k + n) as nat, n as nat);
        }
    }
    assert(rotate_left(s, k) =~= left);
    assert(rotate_right(s, k) =~= right);
}

/// Only the offset modulo the length matters.
pub proof fn lemma_rotate_mod<T>(s: Seq<T>, k: int)
    requires
        s.len() > 0,
    ensures
        rotate_left(s, k % (s.len() as int)) == rotate_left(s, k),
        rotate_right(s, k % (s.len() as int)) == rotate_right(s, k),
{
    let n = s.len() as int;
    assert forall|i: int| 0 <= i < n implies #[trigger] rotate_left(s, k % n)[i] == rotate_left(
        s,
        k,
    )[i] by {
        vstd::arithmetic::div_mod::lemma_add_mod_noop_right(i, k, n);
    }
    assert forall|i: int| 0 <= i < n implies #[trigger] rotate_right(s, k % n)[i] == rotate_right(
        s,
        k,
    )[i] by {
        vstd::arithmetic::div_mod::lemma_sub_mod_noop_right(i, k, n);
    }
    assert(rotate_left(s, k % n) =~= rotate_left(s, k));
    assert(rotate_right(s, k % n) =~= rotate_right(s, k));
}

/// Turning right is turning left by the opposite offset.
pub proof fn lemma_rotate_right_is_left<T>(s: Seq<T>, k: int)
    ensures
        rotate_right(s, k) == rotate_left(s, -k),
{
    assert(rotate_right(s, k) =~= rotate_left(s, -k));
}

/// Two turns in a row are one turn by the sum of the offsets.
pub proof fn lemma_rotate_left_twice<T>(s: Seq<T>, j: int, k: int)
    requires
        s.len() > 0,
    ensures
        rotate_left(rotate_left(s, j), k) == rotate_left(s, j + k),
{
    let n = s.len() as int;
    let once = rotate_left(s, j);
    assert forall|i: int| 0 <= i < n implies #[trigger] rotate_left(once, k)[i] == rotate_left(
        s,
        j + k,
    )[i] by {
        let m = (i + k) % n;
        vstd::arithmetic::div_mod::lemma_mod_bound(i + k, n);
        assert(rotate_left(once, k)[i] == once[m]);
        assert(once[m] == s[(m + j) % n]);
        vstd::arithmetic::div_mod::lemma_add_mod_noop(i + k, j, n);
        vstd::arithmetic::div_mod::lemma_add_mod_noop(m, j, n);
        vstd::arithmetic::div_mod::lemma_mod_twice(i + k, n);
        assert((m + j) % n == (i + k + j) % n);
        assert(i + (j + k) == i + k + j);
    }
    assert(rotate_left(rotate_left(s, j), k) =~= rotate_left(s, j + k));
}

/// A turn to the right undoes the same turn to the left, and the other way
/// round.
pub proof fn lemma_rotate_inverse<T>(s: Seq<T>, k: int)
    requires
        s.len() > 0,
    ensures
        rotate_left(rotate_right(s, k), k) == s,
        rotate_right(rotate_left(s, k), k) == s,
{
    lemma_rotate_right_is_left(s, k);
    lemma_rotate_left_twice(s, -k, k);
    lemma_rotate_right_is_left(rotate_left(s, k), k);
    lemma_rotate_left_twice(s, k, -k);
    lemma_rotate_full_turns(s, 0);
}

/// A turned sequence is a rotation of the one it came from.
pub proof fn lemma_rotate_is_rotation<T>(s: Seq<T>, k: int)
    requires
        s.len() > 0,
    ensures
        is_rotation_of(rotate_left(s, k), s),
        is_rotation_of(rotate_right(s, k), s),
{
    let n = s.len() as int;
    lemma_rotate_mod(s, k);
    vstd::arithmetic::div_mod::lemma_mod_bound(k, n);
    assert(rotate_left(s, k) == rotate_left(s, k % n));
    lemma_rotate_right_is_left(s, k);
    lemma_rotate_mod(s, -k);
    vstd::arithmetic::div_mod::lemma_mod_bound(-k, n);
    assert(rotate_right(s, k) == rotate_left(s, (-k) % n));
}

/// A copy of `v` turned left by `k` places.
pub fn rotated_left(v: &[u32], k: usize) -> (r: Vec<u32>)
    requires
        k <= v.len(),
    ensures
        r@ == rotate_left(v@, k as int),
{
    let n: usize = v.len();
    let mut r: Vec<u32> = Vec::with_capacity(n);
    let mut i: usize = 0;
    while i < n
        invariant
            n == v.len(),
            k <= n,
            i <= n,
            r.len() == i,
            forall|j: int| 0 <= j < i ==> r[j] == v[(j + k) % (n as int)],
        decreases n - i,
    {
        let src: usize = if i < n - k {
            i + k
        } else {
            i - (n - k)
        };
        proof {
            if i < n - k {
                vstd::arithmetic::div_mod::lemma_small_mod((i + k) as nat, n as nat);
            } else {
                vstd::arithmetic::div_mod::lemma_mod_multiples_vanish(
                    1,
                    i + k - n,
                    n as int,
                );
                vstd::arithmetic::div_mod::lemma_small_mod((i + k - n) as nat, n as nat);
                assert(n * 1 + (i + k - n) == i + k);
            }
        }
        r.push(v[src]);
        i = i + 1;
    }
    assert(r@ =~= rotate_left(v@, k as int));
    r
}

/// A copy of `v` turned right by `k` places.
pub fn rotated_right(v: &[u32], k: usize) -> (r: Vec<u32>)
    requires
        k <= v.len(),
    ensures
        r@ == rotate_right(v@, k as int),
{
    let n: usize = v.len();
    proof {
        lemma_rotate_right_is_left(v@, k as int);
        if n > 0 {
            lemma_rotate_mod(v@, -(k as int));
            lemma_rotate_mod(v@, n - k);
            vstd::arithmetic::div_mod::lemma_mod_multiples_vanish(1, -(k as int), n as int);
            assert(n * 1 + (-(k as int)) == n - k);
        } else {
            assert(rotate_left(v@, -(k as int)) =~= rotate_left(v@, n - k));
        }
    }
    rotated_left(v, n - k)
}

} // verus!
