use aphrodite::arch::Architecture;
use aphrodite::arch::x86::egatext::FramebufferInfo;
use aphrodite::arch::x86::gdt::{GDT_KERNEL_CODE_SEGMENT, GDT_WRITE_ADDR_INVALID_LIMIT, GDTEntry, serialize_gdt_entries};
use aphrodite::arch::x86::get_arch;
use aphrodite::arch::x86::interrupts::IdtEntry;
use aphrodite::arch::x86::paging::PageDirectoryEntry;

#[test]
fn arch_is_x86() {
    assert_eq!(get_arch(), Architecture::X86);
}

#[test]
fn gdt_entry_serializes_field_by_field() {
    let e = GDTEntry { limit: 0x12345, base: 0xAABBCCDD, access: 0x9A, flags: 0xC };
    let bytes = e.serialize().unwrap();
    assert_eq!(bytes, [0x45, 0x23, 0xDD, 0xCC, 0xBB, 0x9A, 0xC1, 0xAA]);
}

#[test]
fn gdt_entry_rejects_oversized_limits() {
    let e = GDTEntry { limit: 0x100000, base: 0, access: 0, flags: 0 };
    assert_eq!(e.serialize().unwrap_err().code(), GDT_WRITE_ADDR_INVALID_LIMIT);
}

#[test]
fn six_gdt_entries_serialize_in_order() {
    let null = GDTEntry { limit: 0, base: 0, access: 0, flags: 0 };
    let code = GDTEntry { limit: 0xFFFFF, base: 0, access: 0x9A, flags: 0xC };
    let entries = [null, code, null, null, null, code];
    let bytes = serialize_gdt_entries(entries);
    assert_eq!(&bytes[0..8], &[0u8; 8]);
    assert_eq!(&bytes[8..16], &[0xFF, 0xFF, 0, 0, 0, 0x9A, 0xCF, 0]);
    assert_eq!(&bytes[40..48], &bytes[8..16]);
}

#[test]
fn fourmb_entry_sets_the_page_size_bit() {
    let e = PageDirectoryEntry::create_fourmb(
        0, 0, false, 0, false, false, false, false, false, false, false, false,
    );
    assert!(matches!(e, PageDirectoryEntry::FourMb(0x80)));
    let e = PageDirectoryEntry::create_fourmb(
        0, 0, false, 0, false, false, false, false, false, false, false, true,
    );
    assert!(matches!(e, PageDirectoryEntry::FourMb(0x81)));
}

#[test]
fn fourmb_entry_packs_addresses_and_available_bits() {
    let e = PageDirectoryEntry::create_fourmb(
        0x3FF, 0xFF, true, 0b101, true, true, true, true, true, true, true, true,
    );
    let expected: u32 = 0x7F | (1 << 7) | (1 << 8) | (0b101 << 9) | (1 << 12) | (0xFF << 13)
        | (0x3FF << 22);
    assert!(matches!(e, PageDirectoryEntry::FourMb(w) if w == expected));
}

#[test]
fn other_entry_leaves_the_page_size_bit_clear() {
    let e = PageDirectoryEntry::create_other(
        0, false, 0, false, false, false, false, false, false, false,
    );
    assert!(matches!(e, PageDirectoryEntry::Other(0)));
    let e = PageDirectoryEntry::create_other(
        0x7FFFF, true, 0b11111, true, true, true, true, true, true, true,
    );
    let expected: u32 = 0b111111 | (1 << 6) | (1 << 8) | (0b11110 << 8) | (1 << 12)
        | (0x7FFFF << 13);
    assert!(matches!(e, PageDirectoryEntry::Other(w) if w == expected));
}

#[test]
fn idt_entry_splits_the_handler_address() {
    let e = IdtEntry::from_data(0x12345678, false, false);
    assert_eq!(e.offset_high, 0x1234);
    assert_eq!(e.offset_low, 0x5678);
    assert_eq!(e.segment, GDT_KERNEL_CODE_SEGMENT);
    assert_eq!(e.attrs, 0b10001110);
}

#[test]
fn idt_entry_attrs_follow_the_request() {
    assert_eq!(IdtEntry::from_data(0, true, true).attrs, 0b11101111);
    assert_eq!(IdtEntry::from_data(0, true, false).attrs, 0b11101110);
    assert_eq!(IdtEntry::from_data(0, false, true).attrs, 0b10001111);
}

#[test]
fn framebuffer_addresses_follow_pitch_and_depth() {
    let fb = FramebufferInfo {
        address: 0xB8000,
        pitch: 160,
        width: 80,
        height: 25,
        bpp: 16,
        change_cursor: false,
    };
    assert_eq!(fb.cell_address((0, 0)), 0xB8000);
    assert_eq!(fb.cell_address((3, 2)), 0xB8000 + 2 * 160 + 3 * 2);
    assert_eq!(fb.cursor_address((5, 4)), 4 * 80 + 5);
}
