//! Checking the outcome of a blocking bus transfer.
use vstd::prelude::*;

verus! {

/// The outcome of a blocking bus transfer of `expected` bytes that reported
/// `count`: success when exactly `expected` bytes moved, otherwise the
/// reported count as the error.
pub fn transfer_result(count: isize, expected: usize) -> (r: Result<(), isize>)
    ensures
        r == (if count >= 0 && count as int == expected as int {
            Ok::<(), isize>(())
        } else {
            Err(count)
        }),
{
    if count >= 0 && count as usize == expected {
        Ok(())
    } else {
        Err(count)
    }
}

} // verus!
