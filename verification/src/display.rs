//! The 64x32 monochrome pixel grid.
//!
//! Every cell starts dark. The grid is mutated only by the clear and
//! sprite-draw operations of the machine, and read each frame by the host
//! renderer (true = lit, false = off).

use vstd::prelude::*;

verus! {

pub struct Display {
    pub screen: [[bool; 64]; 32],
}

/// The pixel of `d` at row `r`, column `c`.
pub open spec fn pixel(d: Display, r: int, c: int) -> bool {
    d.screen@[r]@[c]
}

/// A fresh display: every cell dark.
pub fn make_display() -> (d: Display)
    ensures
        forall|r: int, c: int| 0 <= r < 32 && 0 <= c < 64 ==> !pixel(d, r, c),
{
    let s: [[bool; 64]; 32] = [[false; 64]; 32];
    Display { screen: s }
}

} // verus!
