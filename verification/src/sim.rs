//! Pseudo-random state of the simulated devices: a 64-bit xorshift generator.

use vstd::prelude::*;

verus! {

/// One xorshift step (shifts 13, 7, 17) of the generator state.
pub open spec fn xorshift_spec(s: u64) -> u64 {
    let a = s ^ (s << 13u64);
    let b = a ^ (a >> 7u64);
    b ^ (b << 17u64)
}

/// Advance the generator state by one step.
pub fn xorshift_step(s: u64) -> (r: u64)
    ensures
        r == xorshift_spec(s),
{
    let mut x = s;
    x ^= x << 13;
    x ^= x >> 7;
    x ^= x << 17;
    x
}

/// The generator never falls into the zero state from a non-zero one (and zero
/// stays zero), so a non-zero seed keeps producing values.
pub proof fn lemma_xorshift_nonzero(s: u64)
    ensures
        s != 0 <==> xorshift_spec(s) != 0,
{
    assert(s != 0 ==> s ^ (s << 13u64) != 0) by (bit_vector);
    let a = s ^ (s << 13u64);
    assert(a != 0 ==> a ^ (a >> 7u64) != 0) by (bit_vector);
    let b = a ^ (a >> 7u64);
    assert(b != 0 ==> b ^ (b << 17u64) != 0) by (bit_vector);
    assert(s == 0 ==> xorshift_spec(s) == 0) by (bit_vector);
}

} // verus!
