use rand::distr::Distribution;
use rand::Rng;
use vstd::prelude::*;

verus! {

/// Draws a number below `bound` with rand's thread generator
/// (`rand::rng().random_range(0..bound)`).
///
/// Only the range of the result is stated: which number comes is chance.
/// `random_range` panics on an empty range, hence `bound > 0`.
#[verifier::external_body]
pub(crate) fn random_index(bound: usize) -> (r: usize)
    requires
        bound > 0,
    ensures
        r < bound,
{
    rand::rng().random_range(0..bound)
}

} // verus!

verus! {

/// An ASCII letter or digit.
pub open spec fn is_alphanumeric(c: char) -> bool {
    ('A' <= c && c <= 'Z') || ('a' <= c && c <= 'z') || ('0' <= c && c <= '9')
}

/// Draws `len` characters, each an ASCII letter or digit, with rand's thread
/// generator (`rand::distr::Alphanumeric`, which samples from `A-Z`, `a-z` and
/// `0-9`).
///
/// Which characters come is chance: only their number and kind are stated.
#[verifier::external_body]
pub(crate) fn random_alphanumeric(len: usize) -> (s: String)
    ensures
        s@.len() == len,
        forall|i: int| 0 <= i < len ==> is_alphanumeric(#[trigger] s@[i]),
{
    rand::distr::Alphanumeric.sample_iter(&mut rand::rng()).take(len).map(char::from).collect()
}

} // verus!
