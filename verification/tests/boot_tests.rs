use aphrodite::boot::{BootInfo, MemoryMap, MemoryMapping, MemoryType};

fn sections() -> Vec<MemoryMapping> {
    vec![
        MemoryMapping { mem_type: MemoryType::Free, start: 0x1000, len: 0x2000 },
        MemoryMapping { mem_type: MemoryType::Reserved, start: 0x3000, len: 0x1000 },
        MemoryMapping { mem_type: MemoryType::HardwareSpecific(9, true), start: 0x4000, len: 0x500 },
        MemoryMapping { mem_type: MemoryType::HardwareSpecific(9, false), start: 0x5000, len: 0x500 },
        MemoryMapping { mem_type: MemoryType::Kernel, start: 0x6000, len: 0x1000 },
    ]
}

#[test]
fn mem_size_counts_free_and_allocatable_hardware_specific() {
    let mut map = MemoryMap { len: 5, size_pages: 0, page_size: 4096, sections: sections(), idx: 3 };
    assert_eq!(map.mem_size(), 0x2000 + 0x500);
    // The iterator index is restored.
    assert_eq!(map.idx, 3);
}

#[test]
fn map_len_counts_sections() {
    let map = MemoryMap { len: 5, size_pages: 0, page_size: 4096, sections: sections(), idx: 0 };
    assert_eq!(map.len(), 5);
}

#[test]
fn reset_iter_rewinds_only_the_index() {
    let mut map = MemoryMap { len: 5, size_pages: 2, page_size: 4096, sections: sections(), idx: 4 };
    map.reset_iter();
    assert_eq!(map.idx, 0);
    assert_eq!(map.size_pages, 2);
    assert_eq!(map.sections.len(), 5);
}

#[test]
fn allocatable_follows_the_classification() {
    assert!(MemoryType::Free.allocatable());
    assert!(MemoryType::HardwareSpecific(1, true).allocatable());
    assert!(!MemoryType::HardwareSpecific(1, false).allocatable());
    assert!(!MemoryType::Reserved.allocatable());
    assert!(!MemoryType::Kernel.allocatable());
    assert!(!MemoryType::Faulty.allocatable());
    assert!(!MemoryType::Unknown.allocatable());
    assert!(!MemoryType::Permanent.allocatable());
}

#[test]
fn memory_type_output_writes_its_description() {
    // On a one-by-one screen every printing byte but the first moves the
    // cursor down one row: "Free" is four bytes.
    let d = aphrodite::display::NoneTextDisplay {};
    assert_eq!(MemoryType::Free.output(&d, (0, 0)).unwrap(), (1, 3));
    assert!(MemoryType::HardwareSpecific(7, true).output(&d, (0, 0)).is_ok());
}

#[test]
fn memory_mapping_output_writes_its_description() {
    let d = aphrodite::display::NoneTextDisplay {};
    let mapping = MemoryMapping { mem_type: MemoryType::Kernel, start: 0x1000, len: 0x2000 };
    let p = mapping.output(&d, (0, 0)).unwrap();
    assert_eq!(p.0, 1);
    assert!(p.1 > 0);
}

#[test]
fn boot_info_carries_its_fields() {
    let info = BootInfo {
        cmdline: Some("loglevel=3"),
        memory_map: Some(MemoryMap {
            len: 0,
            size_pages: 0,
            page_size: 4096,
            sections: Vec::new(),
            idx: 0,
        }),
        bootloader_name: Some("GRUB 2.12"),
    };
    assert_eq!(info.cmdline.unwrap(), "loglevel=3");
    assert_eq!(info.bootloader_name.unwrap(), "GRUB 2.12");
    assert_eq!(info.memory_map.unwrap().page_size, 4096);
}
