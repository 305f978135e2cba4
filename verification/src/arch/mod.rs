//! Arch-specific code. This module re-exports all code from the
//! architecture being used.

use vstd::prelude::*;

pub mod x86;

verus! {

/// The enum returned by arch::*::get_arch.
#[derive(Clone, Copy, PartialEq, Eq, Structural, Debug)]
pub enum Architecture {
    /// A dummy architecture. If this is returned by arch::*::get_arch,
    /// something is incredibly wrong and a panic should occur
    /// immediately.
    ExampleDummy,
    /// 32-bit x86.
    X86,
}

} // verus!
