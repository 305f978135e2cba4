//! Functions and types related to paging: building page directory
//! entries bit by bit.

use vstd::prelude::*;

verus! {

/// One page directory entry. Use [`PageDirectoryEntry::create_fourmb`]
/// or [`PageDirectoryEntry::create_other`] to make these.
pub enum PageDirectoryEntry {
    /// A four megabyte page.
    FourMb(u32),
    /// A smaller page.
    Other(u32),
}

/// The word of a four-megabyte page directory entry: the flag bits in
/// the low byte, the page-size bit always set, three available bits,
/// the page attribute bit, and the address bits above them.
pub open spec fn spec_fourmb_word(
    bits32to22: u16,
    bits39to32: u8,
    pat: bool,
    available: u8,
    global: bool,
    dirty: bool,
    accessed: bool,
    disable_cache: bool,
    write_through: bool,
    user: bool,
    can_write: bool,
    present: bool,
) -> u32 {
    (if present {
        1u32
    } else {
        0u32
    }) | (if can_write {
        1u32 << 1
    } else {
        0u32
    }) | (if user {
        1u32 << 2
    } else {
        0u32
    }) | (if write_through {
        1u32 << 3
    } else {
        0u32
    }) | (if disable_cache {
        1u32 << 4
    } else {
        0u32
    }) | (if accessed {
        1u32 << 5
    } else {
        0u32
    }) | (if dirty {
        1u32 << 6
    } else {
        0u32
    }) | (1u32 << 7) | (if global {
        1u32 << 8
    } else {
        0u32
    }) | (((available & 0b111) as u32) << 9) | (if pat {
        1u32 << 12
    } else {
        0u32
    }) | ((bits39to32 as u32) << 13) | (((bits32to22 & 0b1111111111) as u32) << 22)
}

/// The word of a page directory entry for smaller pages: the flag bits
/// in the low byte, one available bit at bit six, the page-size bit
/// clear, four available bits above the global bit, the page attribute
/// bit, and the address bits above them.
pub open spec fn spec_other_word(
    bits31to12: u32,
    pat: bool,
    available: u8,
    global: bool,
    accessed: bool,
    disable_cache: bool,
    write_through: bool,
    user: bool,
    can_write: bool,
    present: bool,
) -> u32 {
    (if present {
        1u32
    } else {
        0u32
    }) | (if can_write {
        1u32 << 1
    } else {
        0u32
    }) | (if user {
        1u32 << 2
    } else {
        0u32
    }) | (if write_through {
        1u32 << 3
    } else {
        0u32
    }) | (if disable_cache {
        1u32 << 4
    } else {
        0u32
    }) | (if accessed {
        1u32 << 5
    } else {
        0u32
    }) | (if available & 1 != 0 {
        1u32 << 6
    } else {
        0u32
    }) | (if global {
        1u32 << 8
    } else {
        0u32
    }) | (((available & 0b11110) as u32) << 8) | (if pat {
        1u32 << 12
    } else {
        0u32
    }) | ((bits31to12 & 0b1111111111111111111) << 13)
}

impl PageDirectoryEntry {
    /// Creates a four-megabyte page directory entry whose word is
    /// exactly the one [`spec_fourmb_word`] names.
    pub fn create_fourmb(
        bits32to22: u16,
        bits39to32: u8,
        pat: bool,
        available: u8,
        global: bool,
        dirty: bool,
        accessed: bool,
        disable_cache: bool,
        write_through: bool,
        user: bool,
        can_write: bool,
        present: bool,
    ) -> (r: Self)
        ensures
            r == PageDirectoryEntry::FourMb(
                spec_fourmb_word(
                    bits32to22,
                    bits39to32,
                    pat,
                    available,
                    global,
                    dirty,
                    accessed,
                    disable_cache,
                    write_through,
                    user,
                    can_write,
                    present,
                ),
            ),
    {
        let out = (if present {
            1u32
        } else {
            0u32
        }) | (if can_write {
            1u32 << 1
        } else {
            0u32
        }) | (if user {
            1u32 << 2
        } else {
            0u32
        }) | (if write_through {
            1u32 << 3
        } else {
            0u32
        }) | (if disable_cache {
            1u32 << 4
        } else {
            0u32
        }) | (if accessed {
            1u32 << 5
        } else {
            0u32
        }) | (if dirty {
            1u32 << 6
        } else {
            0u32
        }) | (1u32 << 7) | (if global {
            1u32 << 8
        } else {
            0u32
        }) | (((available & 0b111) as u32) << 9) | (if pat {
            1u32 << 12
        } else {
            0u32
        }) | ((bits39to32 as u32) << 13) | (((bits32to22 & 0b1111111111) as u32) << 22);
        Self::FourMb(out)
    }

    /// Creates a page directory entry for smaller pages whose word is
    /// exactly the one [`spec_other_word`] names.
    pub fn create_other(
        bits31to12: u32,
        pat: bool,
        available: u8,
        global: bool,
        accessed: bool,
        disable_cache: bool,
        write_through: bool,
        user: bool,
        can_write: bool,
        present: bool,
    ) -> (r: Self)
        ensures
            r == PageDirectoryEntry::Other(
                spec_other_word(
                    bits31to12,
                    pat,
                    available,
                    global,
                    accessed,
                    disable_cache,
                    write_through,
                    user,
                    can_write,
                    present,
                ),
            ),
    {
        let out = (if present {
            1u32
        } else {
            0u32
        }) | (if can_write {
            1u32 << 1
        } else {
            0u32
        }) | (if user {
            1u32 << 2
        } else {
            0u32
        }) | (if write_through {
            1u32 << 3
        } else {
            0u32
        }) | (if disable_cache {
            1u32 << 4
        } else {
            0u32
        }) | (if accessed {
            1u32 << 5
        } else {
            0u32
        }) | (if available & 1 != 0 {
            1u32 << 6
        } else {
            0u32
        }) | (if global {
            1u32 << 8
        } else {
            0u32
        }) | (((available & 0b11110) as u32) << 8) | (if pat {
            1u32 << 12
        } else {
            0u32
        }) | ((bits31to12 & 0b1111111111111111111) << 13);
        Self::Other(out)
    }
}

} // verus!
