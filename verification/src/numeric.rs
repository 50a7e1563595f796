//! Integer conversions for terminal-cell counts.
use vstd::prelude::*;

verus! {

/// Saturating `usize -> u16` for terminal-cell counts, which are always far
/// below `u16::MAX` in practice.
pub fn usize_to_u16_saturating(n: usize) -> (r: u16)
    ensures
        r == if n <= u16::MAX {
            n as u16
        } else {
            u16::MAX
        },
{
    if n <= 65535 {
        n as u16
    } else {
        65535
    }
}

} // verus!
