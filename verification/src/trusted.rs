//! Calls into other crates and into parts of the standard library that come
//! without a specification, each with what this crate takes on trust about
//! it. Nothing here is proved; everything else in the crate is.

use crate::puzzle::color::Rgb;
use rand::rngs::StdRng;
use rand::{Rng, SeedableRng};
use std::collections::hash_map::DefaultHasher;
use std::hash::Hash;
use vstd::prelude::*;
use web_time::Instant;

verus! {

/// `rand::rngs::StdRng`, a random number generator. Nothing is known of
/// what is inside.
#[verifier::external_type_specification]
#[verifier::external_body]
pub struct ExStdRng(rand::rngs::StdRng);

/// `web_time::Instant`, a point in time. Nothing is known of what is inside.
#[verifier::external_type_specification]
#[verifier::external_body]
pub struct ExInstant(web_time::Instant);

/// The colour that `colorous::RAINBOW.eval_rational(i, n)` returns. Built
/// without its `std` feature, as it is here, `colorous` computes it from `i`
/// and `n` alone with arithmetic of its own, so the same arguments give the
/// same colour everywhere.
pub uninterp spec fn rainbow(i: int, n: int) -> Rgb;

/// Calls `Gradient::eval_rational` on `colorous::RAINBOW`: the colour at
/// position `i / n` of the rainbow. The call panics where `n` is 0.
#[verifier::external_body]
pub(crate) fn rainbow_sample(i: u32, n: u32) -> (r: Rgb)
    requires
        n > 0,
    ensures
        r == rainbow(i as int, n as int),
{
    let c = colorous::RAINBOW.eval_rational(i as usize, n as usize);
    Rgb { r: c.r, g: c.g, b: c.b }
}

/// Calls `StdRng::from_seed`: a generator that starts from `seed`.
#[verifier::external_body]
pub(crate) fn rng_from_seed(seed: [u8; 32]) -> StdRng {
    StdRng::from_seed(seed)
}

/// Calls `Rng::random_range` with the range `0..n`: some number below `n`.
/// The call panics on an empty range, so `n` must not be 0.
#[verifier::external_body]
pub(crate) fn random_below(rng: &mut StdRng, n: u32) -> (r: u32)
    requires
        n > 0,
    ensures
        r < n,
{
    rng.random_range(0..n)
}

/// Calls `Instant::now`: the present moment.
#[verifier::external_body]
pub(crate) fn now() -> Instant {
    Instant::now()
}

/// Calls `Hash::hash` on an `Instant`: feeds the moment `t` into the hasher
/// `h`. What the hasher then holds is left open.
#[verifier::external_body]
pub(crate) fn hash_instant(t: &Instant, h: &mut DefaultHasher) {
    t.hash(h)
}

/// Calls `u64::to_ne_bytes`: the bytes of `x` in the order in which this
/// machine stores them, which is either the lowest byte first or the highest.
#[verifier::external_body]
pub(crate) fn native_bytes(x: u64) -> (r: [u8; 8])
    ensures
        r@ == vstd::bytes::spec_u64_to_le_bytes(x) || r@ == vstd::bytes::spec_u64_to_le_bytes(
            x,
        ).reverse(),
{
    x.to_ne_bytes()
}

} // verus!
