use aphrodite::boot::{MemoryMapping, MemoryType};
use aphrodite::multiboot2::{ColorInfo, MemoryMap, MemorySection, Multiboot2BootInfo, RootTag, Tag};

#[test]
fn section_types_classify_into_memory_types() {
    let cases = [
        (1u32, MemoryType::Free),
        (2, MemoryType::HardwareReserved),
        (3, MemoryType::HardwareSpecific(3, false)),
        (5, MemoryType::Faulty),
        (4, MemoryType::Reserved),
        (77, MemoryType::Reserved),
    ];
    for (raw, expected) in cases {
        let section = MemorySection { base_addr: 0x1000, length: 0x2000, mem_type: raw, reserved: 0 };
        let mapping: MemoryMapping = section.into();
        assert_eq!(mapping.mem_type, expected);
        assert_eq!(mapping.start, 0x1000);
        assert_eq!(mapping.len, 0x2000);
    }
}

#[test]
fn multiboot2_mem_size_counts_allocatable_mappings() {
    let mut map = MemoryMap {
        version: 0,
        entry_size: 24,
        sections: vec![
            MemoryMapping { mem_type: MemoryType::Free, start: 0, len: 640 },
            MemoryMapping { mem_type: MemoryType::Reserved, start: 640, len: 384 },
            MemoryMapping { mem_type: MemoryType::Free, start: 1024, len: 1024 },
        ],
    };
    assert_eq!(map.mem_size(), 640 + 1024);
}

#[test]
fn tags_and_boot_info_carry_their_fields() {
    let tag = Tag { tag_type: 6, tag_len: 24 };
    let root = RootTag { total_len: 128, reserved: 0 };
    let info = Multiboot2BootInfo {
        mem_lower: Some(640),
        mem_upper: Some(65536),
        cmdline: Some("quiet".to_string()),
        memory_map: None,
        bootloader_name: Some("GRUB 2.12".to_string()),
        framebuffer_info: None,
        color_info: Some(ColorInfo::EGAText),
    };
    assert_eq!(tag.tag_type, 6);
    assert_eq!(root.total_len, 128);
    assert_eq!(info.mem_lower.unwrap(), 640);
    assert!(matches!(info.color_info, Some(ColorInfo::EGAText)));
}
