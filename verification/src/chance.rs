//! The only place where randomness enters: thin calls into the `rand` crate.
//!
//! Nothing in here is proved. Each contract states what the documentation and
//! source of `rand` promise for every outcome, and no more.
//!
//! All three functions use `rand::thread_rng`, which seeds itself from the
//! operating system on first use and panics if that fails. No argument of
//! these functions has any part in that.

use rand::seq::SliceRandom;
use rand::Rng;
use vstd::prelude::*;

verus! {

/// Calls `rand::Rng::gen_ratio` on the thread-local generator: a coin that
/// comes up `true` with probability `numerator / denominator`.
///
/// `gen_ratio` panics when the denominator is zero or the numerator exceeds
/// it, so both are excluded. Its documentation guarantees `true` when the two
/// are equal and `false` when the numerator is zero; in between, either value
/// may come back and nothing is claimed.
#[verifier::external_body]
pub(crate) fn sample_ratio(numerator: u32, denominator: u32) -> (hit: bool)
    requires
        0 < denominator,
        numerator <= denominator,
    ensures
        numerator == denominator ==> hit,
        numerator == 0 ==> !hit,
{
    rand::thread_rng().gen_ratio(numerator, denominator)
}

/// Calls `rand::seq::SliceRandom::shuffle` on the two values, with the
/// thread-local generator.
///
/// `shuffle` only ever swaps elements of the slice, so the two values come
/// back in one of the two possible orders; which one is left open.
#[verifier::external_body]
pub(crate) fn shuffle_pair<C>(first: C, second: C) -> (shuffled: (C, C))
    ensures
        shuffled == (first, second) || shuffled == (second, first),
{
    let mut pair = [first, second];
    pair.shuffle(&mut rand::thread_rng());
    let [a, b] = pair;
    (a, b)
}

/// Whether `c` is an ASCII letter or digit.
pub open spec fn is_alphanumeric(c: char) -> bool {
    ('a' <= c && c <= 'z') || ('A' <= c && c <= 'Z') || ('0' <= c && c <= '9')
}

/// Calls `rand::Rng::sample` with the `rand::distributions::Alphanumeric`
/// distribution on the thread-local generator.
///
/// That distribution picks from the 62 ASCII letters and digits, so the
/// character is one of them; which one is left open.
#[verifier::external_body]
pub(crate) fn sample_alphanumeric() -> (c: char)
    ensures
        is_alphanumeric(c),
{
    char::from(rand::thread_rng().sample(rand::distributions::Alphanumeric))
}

} // verus!
