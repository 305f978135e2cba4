use aphrodite::arch::x86::memory::{MemorySectionBuilder, make_entry};
use aphrodite::memsections::{MemorySection, Owner, SectionType};

fn data_section(address: u64, length: u64) -> MemorySection {
    MemorySection {
        section_type: SectionType::DataSection,
        owner: Owner::Kernelspace,
        minimal_read: false,
        readable: true,
        writable: true,
        address,
        length,
    }
}

#[test]
fn builder_collects_sections_and_expands_them() {
    let mut builder = MemorySectionBuilder::new();
    builder.add_section(data_section(0x1000, 0x10));
    builder.add_section(data_section(0x2000, 0x20));
    let sections = builder.finish();
    let entries = sections.gdt_entries();
    assert_eq!(entries.len(), 2);
    assert_eq!(entries[0].base, 0x1000);
    assert_eq!(entries[0].limit, 0x10);
    assert_eq!(entries[1].base, 0x2000);
    assert_eq!(entries[1].limit, 0x20);
}

#[test]
fn writable_kernel_data_access_byte() {
    let mut entries = Vec::new();
    let mut section = data_section(0x1000, 0x10);
    make_entry(&mut section, &mut entries);
    assert_eq!(entries.len(), 1);
    // present/accessed base, data flag, writable bit.
    assert_eq!(entries[0].access, 0b10000001 | 0b10000 | 0b10);
    assert_eq!(entries[0].flags, 0b1100);
}

#[test]
fn user_code_access_byte() {
    let mut entries = Vec::new();
    let mut section = MemorySection {
        section_type: SectionType::CodeSection { can_powerful_sections_jump: true },
        owner: Owner::Userspace,
        minimal_read: false,
        readable: true,
        writable: false,
        address: 0x4000,
        length: 0x100,
    };
    make_entry(&mut section, &mut entries);
    assert_eq!(entries[0].access, 0b10000001 | 0b1100000 | 0b10000 | 0b1000 | 0b100 | 0b10);
}

#[test]
fn busy_task_access_byte() {
    let mut entries = Vec::new();
    let mut section = MemorySection {
        section_type: SectionType::TaskSection { busy: true },
        owner: Owner::Modulespace,
        minimal_read: false,
        readable: false,
        writable: false,
        address: 0x8000,
        length: 0x100,
    };
    make_entry(&mut section, &mut entries);
    assert_eq!(entries[0].access, 0b10000001 | 0b0100000 | 0x9);
}

#[test]
fn long_sections_split_into_several_descriptors() {
    let mut builder = MemorySectionBuilder::new();
    builder.add_section(data_section(0x1000, 0x100001));
    let entries = builder.finish().gdt_entries();
    assert_eq!(entries.len(), 2);
    // The walk takes one descriptor's worth off the length each step;
    // both emitted limits are the remainder.
    assert_eq!(entries[0].limit, 2);
    assert_eq!(entries[1].limit, 2);
}

#[test]
fn zero_length_sections_emit_nothing() {
    let mut entries = Vec::new();
    let mut section = data_section(0x1000, 0);
    make_entry(&mut section, &mut entries);
    assert!(entries.is_empty());
    let mut builder = MemorySectionBuilder::new();
    builder.add_section(data_section(0x1000, 0));
    assert!(builder.finish().gdt_entries().is_empty());
}
