//! Range checks on coordinates, read from their IEEE-754 encodings.

use vstd::prelude::*;

use crate::outside::{bits_of, coord_bits, finite, Coord};

verus! {

/// Clears the sign bit of an encoding.
pub const MAGNITUDE_MASK: u64 = 0x7fff_ffff_ffff_ffff;

/// The encoding of 90.0.
pub const LAT_LIMIT_BITS: u64 = 0x4056_8000_0000_0000;

/// The encoding of 180.0.
pub const LNG_LIMIT_BITS: u64 = 0x4066_8000_0000_0000;

/// Whether the double encoded by `bits` is finite and of magnitude at most
/// the double encoded by `limit`.
///
/// For non-negative doubles the order of the encodings is the numeric order,
/// and infinities and NaNs encode above every finite value, so the test reads
/// the encoding with its sign bit cleared.
pub open spec fn within(bits: u64, limit: u64) -> bool {
    bits & MAGNITUDE_MASK <= limit
}

/// Whether the encodings of a longitude and a latitude lie in the
/// latitude/longitude domain: longitude in [-180, 180] and latitude in
/// [-90, 90] degrees.
pub open spec fn bits_in_domain(b: (u64, u64)) -> bool {
    within(b.0, LNG_LIMIT_BITS) && within(b.1, LAT_LIMIT_BITS)
}

/// Whether every coordinate of a sequence lies in the domain.
pub open spec fn all_in_domain(cs: Seq<(u64, u64)>) -> bool {
    forall|i: int| 0 <= i < cs.len() ==> bits_in_domain(#[trigger] cs[i])
}

/// A coordinate in the domain is finite.
pub proof fn lemma_in_domain_finite(b: (u64, u64))
    requires
        bits_in_domain(b),
    ensures
        finite(b.0),
        finite(b.1),
{
    let (x, y) = b;
    assert(x & 0x7fff_ffff_ffff_ffff <= 0x4066_8000_0000_0000 ==> x & 0x7ff0_0000_0000_0000
        != 0x7ff0_0000_0000_0000) by (bit_vector);
    assert(y & 0x7fff_ffff_ffff_ffff <= 0x4056_8000_0000_0000 ==> y & 0x7ff0_0000_0000_0000
        != 0x7ff0_0000_0000_0000) by (bit_vector);
}

/// Tests whether a coordinate lies in the latitude/longitude domain.
pub fn in_domain(c: &Coord) -> (r: bool)
    ensures
        r == bits_in_domain(coord_bits(*c)),
{
    let (x, y) = bits_of(c);
    x & MAGNITUDE_MASK <= LNG_LIMIT_BITS && y & MAGNITUDE_MASK <= LAT_LIMIT_BITS
}

/// Tests whether every coordinate of a ring lies in the domain.
pub fn ring_in_domain(cs: &Vec<Coord>) -> (r: bool)
    ensures
        r == all_in_domain(cs@.map_values(|c: Coord| coord_bits(c))),
{
    let ghost bits = cs@.map_values(|c: Coord| coord_bits(c));
    let mut i: usize = 0;
    while i < cs.len()
        invariant
            i <= cs.len(),
            bits == cs@.map_values(|c: Coord| coord_bits(c)),
            forall|j: int| 0 <= j < i ==> bits_in_domain(#[trigger] bits[j]),
        decreases cs.len() - i,
    {
        if !in_domain(&cs[i]) {
            assert(!bits_in_domain(bits[i as int]));
            return false;
        }
        i = i + 1;
    }
    true
}

} // verus!
