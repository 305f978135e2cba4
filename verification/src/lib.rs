//! Core library of a bare-metal kernel's boot phase: a physical-memory
//! allocator driven by a firmware-supplied memory map, together with the
//! supporting data types and routines the boot code is built from (error
//! values, text conversion, command-line validation, descriptor tables,
//! font parsing, and display bookkeeping).

pub mod arch;
pub mod boot;
pub mod cmdline;
pub mod display;
pub mod errors;
pub mod mem;
pub mod memsections;
pub mod multiboot2;
pub mod psfont;
pub mod util;
