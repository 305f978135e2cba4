//! Hardware-level memory sections: x86 implements them with the GDT.
//! Building the descriptor entries from sections is done here; writing
//! them to memory and activating them is the hardware's side of the
//! split.

use vstd::prelude::*;

use super::gdt::GDTEntry;
use crate::memsections::{MemorySection, Owner, SectionType};

verus! {

/// The access byte of the descriptor a section serializes to: present
/// and accessed bits, the owner's privilege, and the section type's
/// kind bits.
pub open spec fn spec_section_access(section: MemorySection) -> u8 {
    let base = 0b10000001u8 | (match section.owner {
        Owner::Kernelspace => 0b0000000u8,
        Owner::Modulespace => 0b0100000u8,
        Owner::Userspace => 0b1100000u8,
    });
    match section.section_type {
        SectionType::TaskSection { busy } => base | (if busy {
            0x9u8
        } else {
            0xBu8
        }),
        SectionType::CodeSection { can_powerful_sections_jump } => base | 0b10000u8 | 0b1000u8 | (
        if can_powerful_sections_jump {
            0b100u8
        } else {
            0u8
        }) | (if section.readable {
            0b10u8
        } else {
            0u8
        }),
        SectionType::DataSection => base | 0b10000u8 | (if section.writable {
            0b10u8
        } else {
            0u8
        }),
    }
}

/// The limit of the next descriptor for a section: the section's length
/// truncated to 32 bits, then brought into range by whole descriptor
/// limits, as the splitting walk does.
pub open spec fn spec_capped_len(l: u32) -> u32
    decreases l,
{
    if l > 0xFFFFF {
        spec_capped_len((l - 0xFFFFF) as u32)
    } else {
        l
    }
}

/// The descriptor entry one step of the splitting walk emits for a
/// section.
pub open spec fn spec_section_entry(section: MemorySection) -> GDTEntry {
    GDTEntry {
        limit: spec_capped_len(section.length as u32),
        base: section.address as u32,
        access: spec_section_access(section),
        flags: 0b1100,
    }
}

/// Every descriptor entry a section expands to: sections longer than
/// one descriptor's limit are split into however many descriptors are
/// necessary, each one descriptor's worth shorter than the one before;
/// a zero-length section expands to nothing.
pub open spec fn spec_section_entries(section: MemorySection) -> Seq<GDTEntry>
    decreases section.length,
{
    if section.length == 0 {
        Seq::empty()
    } else if section.length > 0xFFFFF {
        seq![spec_section_entry(section)] + spec_section_entries(
            MemorySection { length: (section.length - 0xFFFFF) as u64, ..section },
        )
    } else {
        seq![spec_section_entry(section)]
    }
}

/// Every descriptor entry a list of sections expands to, in section
/// order.
pub open spec fn spec_sections_entries(sections: Seq<MemorySection>) -> Seq<GDTEntry>
    decreases sections.len(),
{
    if sections.len() == 0 {
        Seq::empty()
    } else {
        spec_section_entries(sections[0]) + spec_sections_entries(sections.skip(1))
    }
}

/// Emit the descriptor entry for one step of the splitting walk: push
/// the entry for the section as it stands, and take one descriptor's
/// worth off a section still longer than that. A zero-length section
/// emits nothing.
pub fn make_entry(section: &mut MemorySection, entries: &mut Vec<GDTEntry>)
    ensures
        old(section).length == 0 ==> *final(section) == *old(section) && final(entries)@ == old(
            entries,
        )@,
        old(section).length != 0 ==> {
            &&& final(entries)@ == old(entries)@.push(spec_section_entry(*old(section)))
            &&& *final(section) == (MemorySection {
                length: if old(section).length > 0xFFFFF {
                    (old(section).length - 0xFFFFF) as u64
                } else {
                    old(section).length
                },
                ..*old(section)
            })
        },
{
    if section.length == 0 {
        return ;
    }
    let mut len = section.length as u32;
    let ghost len0 = len;
    while len > 0xFFFFF
        invariant
            spec_capped_len(len) == spec_capped_len(len0),
        decreases len,
    {
        len = len - 0xFFFFF;
    }
    let base = 0b10000001u8 | (match section.owner {
        Owner::Kernelspace => 0b0000000u8,
        Owner::Modulespace => 0b0100000u8,
        Owner::Userspace => 0b1100000u8,
    });
    let access = match section.section_type {
        SectionType::TaskSection { busy } => base | (if busy {
            0x9u8
        } else {
            0xBu8
        }),
        SectionType::CodeSection { can_powerful_sections_jump } => base | 0b10000u8 | 0b1000u8 | (
        if can_powerful_sections_jump {
            0b100u8
        } else {
            0u8
        }) | (if section.readable {
            0b10u8
        } else {
            0u8
        }),
        SectionType::DataSection => base | 0b10000u8 | (if section.writable {
            0b10u8
        } else {
            0u8
        }),
    };
    let flags = 0b1100u8;
    let entry = GDTEntry { limit: len, base: section.address as u32, access, flags };
    if section.length > 0xFFFFF {
        section.length = section.length - 0xFFFFF;
    }
    entries.push(entry);
}

/// A list of memory sections. Create one with [`MemorySectionBuilder`].
pub struct MemorySections {
    sections: Vec<MemorySection>,
}

impl MemorySections {
    /// The sections, in spec position.
    pub closed spec fn spec_sections(&self) -> Seq<MemorySection> {
        self.sections@
    }

    /// The descriptor entries the sections expand to, by the splitting
    /// walk of [`make_entry`]: exactly the ones
    /// [`spec_sections_entries`] names. Writing these to memory and
    /// activating them is what consuming the sections means; the bytes
    /// are produced by [`super::gdt::GDTEntry`] serialization.
    pub fn gdt_entries(&self) -> (r: Vec<GDTEntry>)
        ensures
            r@ == spec_sections_entries(self.spec_sections()),
    {
        let mut entries: Vec<GDTEntry> = Vec::new();
        let ghost all = self.sections@;
        proof {
            assert(all.skip(0) =~= all);
        }
        let mut i: usize = 0;
        while i < self.sections.len()
            invariant
                i <= all.len(),
                all == self.sections@,
                entries@ + spec_sections_entries(all.skip(i as int)) =~= spec_sections_entries(
                    all,
                ),
            decreases all.len() - i,
        {
            proof {
                assert(all.skip(i as int)[0] == all[i as int]);
                assert(all.skip(i as int).skip(1) =~= all.skip(i + 1));
            }
            let mut section: MemorySection = self.sections[i];
            while section.length > 0xFFFFF
                invariant
                    entries@ + spec_section_entries(section) + spec_sections_entries(
                        all.skip(i + 1),
                    ) =~= spec_sections_entries(all),
                decreases section.length,
            {
                make_entry(&mut section, &mut entries);
                proof {
                    assert(entries@ + spec_section_entries(section) + spec_sections_entries(
                        all.skip(i + 1),
                    ) =~= spec_sections_entries(all));
                }
            }
            make_entry(&mut section, &mut entries);
            proof {
                assert(entries@ + spec_sections_entries(all.skip(i + 1)) =~= spec_sections_entries(
                    all,
                ));
            }
            i = i + 1;
        }
        proof {
            assert(all.skip(all.len() as int) =~= Seq::<MemorySection>::empty());
            assert(entries@ =~= spec_sections_entries(all));
        }
        entries
    }
}

/// A builder for [`MemorySections`].
pub struct MemorySectionBuilder {
    sections: Vec<MemorySection>,
}

impl MemorySectionBuilder {
    /// The sections added so far, in spec position.
    pub closed spec fn spec_sections(&self) -> Seq<MemorySection> {
        self.sections@
    }

    /// Creates a new, empty builder.
    pub fn new() -> (r: Self)
        ensures
            r.spec_sections() == Seq::<MemorySection>::empty(),
    {
        MemorySectionBuilder { sections: Vec::new() }
    }

    /// Adds a section to the builder.
    pub fn add_section(&mut self, section: MemorySection) -> (r: &mut Self)
        ensures
            r.spec_sections() == old(self).spec_sections().push(section),
            *final(self) == *final(r),
    {
        self.sections.push(section);
        self
    }

    /// Create the sections from this builder.
    pub fn finish(self) -> (r: MemorySections)
        ensures
            r.spec_sections() == self.spec_sections(),
    {
        MemorySections { sections: self.sections }
    }
}

} // verus!
