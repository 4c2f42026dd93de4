use vstd::prelude::*;

verus! {

/// Largest value that a 12-bit control packet payload can hold.
pub const U12_MAX: u16 = 0x0FFF;

/// Does the u16 fit in a u12.
pub fn does_u16_fit_u12(v: u16) -> (fits: bool)
    ensures
        fits <==> v <= U12_MAX,
{
    v <= U12_MAX
}

} // verus!
