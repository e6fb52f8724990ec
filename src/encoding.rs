//! Delta encoding of small integer messages into the top bits of a `u64`
//! torus element, and the rounding decomposer that decodes them.

use vstd::prelude::*;

verus! {

/// Size of the message space: `2^4`.
pub const MESSAGE_MODULUS: u64 = 16;

/// Scale of one message unit: `2^63 / MESSAGE_MODULUS`, leaving one padding bit.
pub const DELTA: u64 = 0x0800_0000_0000_0000;

/// Half of `DELTA`: the rounding threshold of the decomposer.
pub const HALF_DELTA: u64 = 0x0400_0000_0000_0000;

/// Base log of the fixed decomposer (one padding bit plus four message bits).
pub const DECOMPOSER_BASE_LOG: u64 = 5;

/// Level count of the fixed decomposer.
pub const DECOMPOSER_LEVEL_COUNT: u64 = 1;

/// The modulus of the `u64` torus.
pub open spec fn torus_modulus() -> int {
    0x1_0000_0000_0000_0000
}

/// The plaintext that encodes message `m`.
pub open spec fn encoded(m: int) -> int {
    m * DELTA
}

/// The multiple of `DELTA` closest to `x` (ties go up), reduced modulo `2^64`:
/// what rounding to the five most significant bits yields.
pub open spec fn closest_multiple(x: int) -> int {
    (((x + HALF_DELTA) / (DELTA as int)) * DELTA) % torus_modulus()
}

/// The message that a (noisy) plaintext `x` decodes to.
pub open spec fn decoded(x: int) -> int {
    closest_multiple(x) / (DELTA as int)
}

/// Encodes message `m` as `m * DELTA`.
pub fn encode(m: u64) -> (r: u64)
    requires
        m < 2 * MESSAGE_MODULUS,
    ensures
        r == encoded(m as int),
{
    m * DELTA
}

/// Rounds `x` to the nearest value representable with the five most significant bits.
pub fn closest_representable(x: u64) -> (r: u64)
    ensures
        r == closest_multiple(x as int),
{
    let non_rep_bit_count: u64 = 64 - DECOMPOSER_BASE_LOG * DECOMPOSER_LEVEL_COUNT;
    let non_rep_msb: u64 = (x >> (non_rep_bit_count - 1)) & 1;
    proof {
        lemma_closest_representable(x);
    }
    let res: u64 = (x >> non_rep_bit_count) + non_rep_msb;
    res << non_rep_bit_count
}

proof fn lemma_closest_representable(x: u64)
    ensures
        x >> 59u64 < 32,
        (x >> 58u64) & 1 < 2,
        (((((x >> 59u64) + ((x >> 58u64) & 1)) as u64) << 59u64) as int) == closest_multiple(x as int),
{
    let h: u64 = x >> 59u64;
    let b: u64 = (x >> 58u64) & 1;
    assert(h < 32 && b < 2) by (bit_vector)
        requires
            h == x >> 59u64,
            b == (x >> 58u64) & 1,
    ;
    assert(((x as int) + HALF_DELTA) / (DELTA as int) == h + b) by (bit_vector)
        requires
            h == x >> 59u64,
            b == (x >> 58u64) & 1,
    ;
    let s: u64 = (h + b) as u64;
    assert((s << 59u64) == ((s as int) * DELTA) % torus_modulus()) by (bit_vector)
        requires
            s < 33,
    ;
}

/// Decodes a noisy plaintext: rounds it, then removes the `DELTA` scale.
pub fn decode(x: u64) -> (r: u64)
    ensures
        r == decoded(x as int),
        r < 2 * MESSAGE_MODULUS,
{
    let rounded: u64 = closest_representable(x);
    proof {
        assert(closest_multiple(x as int) < torus_modulus());
    }
    rounded / DELTA
}

} // verus!
