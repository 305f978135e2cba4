//! 32-bit x86 specific code.

use vstd::prelude::*;

pub mod egatext;
pub mod gdt;
pub mod interrupts;
pub mod memory;
pub mod paging;

verus! {

/// Returns the most specific architecture available.
pub fn get_arch() -> (r: super::Architecture)
    ensures
        r == super::Architecture::X86,
{
    super::Architecture::X86
}

} // verus!
