//! Random draws: where a cursor starts, and the random part of an item id.
use rand::Rng;
use vstd::prelude::*;

verus! {

/// Whether `c` is a lowercase hexadecimal digit.
pub open spec fn is_lower_hex(c: char) -> bool {
    ('0' <= c <= '9') || ('a' <= c <= 'f')
}

/// Relies on rand's `Rng::gen_range` over `0..n`: a value in `[0, n)`
/// (it panics on an empty range, which `n > 0` rules out).
#[verifier::external_body]
pub(crate) fn random_below(n: usize) -> (r: usize)
    requires
        n > 0,
    ensures
        r < n,
{
    rand::thread_rng().gen_range(0..n)
}

/// Relies on `rand::random::<u32>`, written as eight lowercase hexadecimal
/// digits (`{:08x}` pads a `u32` to exactly eight).
#[verifier::external_body]
pub(crate) fn random_suffix() -> (r: String)
    ensures
        r@.len() == 8,
        forall|k: int| 0 <= k < 8 ==> is_lower_hex(#[trigger] r@[k]),
{
    format!("{:08x}", rand::random::<u32>())
}

} // verus!
