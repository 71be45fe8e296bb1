//! Constants shared by the whole kernel core.

use vstd::prelude::*;

verus! {

/// Size of one page in bytes.
pub const PAGE_SIZE: usize = 4096;

/// Number of address bits that select a byte inside a page.
pub const PAGE_SIZE_BITS: usize = 12;

} // verus!
