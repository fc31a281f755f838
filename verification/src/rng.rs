use vstd::prelude::*;

verus! {

/// Relies on rand::random: a machine word drawn from the thread-local
/// generator.  Nothing is assumed of the value.
#[verifier::external_body]
fn random_u64() -> u64 {
    rand::random::<u64>()
}

/// A random fixed-point value in [0, bound), whatever word the generator
/// produced.
pub fn random_below(bound: i64) -> (r: i64)
    requires
        bound > 0,
    ensures
        0 <= r < bound,
{
    let x: u64 = random_u64();
    let m: u64 = x % (bound as u64);
    m as i64
}

} // verus!
