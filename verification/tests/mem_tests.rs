use aphrodite::boot::{MemoryMap, MemoryMapping, MemoryType};
use aphrodite::mem::{
    ALLOCATIONS_NOT_ENOUGH_SPACE, EXTEND_ALLOCATION_ALLOCATION_UNUSED,
    EXTEND_ALLOCATION_INVALID_INDEX, EXTEND_ALLOCATION_OTHER_ALLOCATION, FREE_MEMORY_UNAVAILABLE,
    INVALID_CONSTRAINT, MAYBE_MEMORY_MAP_ALLOC_UNINITALIZED, MEMORY_NOT_ALLOCATED,
    MaybeMemoryMapAlloc, MemoryMapAlloc, TOO_MANY_ALLOCATIONS,
};

fn map_of(sections: Vec<MemoryMapping>) -> MemoryMap {
    let len = sections.len() as u64;
    MemoryMap { len, size_pages: 0, page_size: 4096, sections, idx: 0 }
}

fn one_free_megabyte() -> MemoryMap {
    map_of(vec![MemoryMapping { mem_type: MemoryType::Free, start: 0x100000, len: 0x100000 }])
}

#[test]
fn construction_places_table_in_first_free_mapping() {
    let map = map_of(vec![
        MemoryMapping { mem_type: MemoryType::Reserved, start: 0x1000, len: 0x100000 },
        MemoryMapping { mem_type: MemoryType::Free, start: 0x100000, len: 0x100000 },
    ]);
    let alloc = MemoryMapAlloc::new(map).unwrap();
    assert_eq!(alloc.table_address(), 0x100000);
    assert_eq!(alloc.table_length(), 24 * 32);
    assert_eq!(alloc.number_of_allocations(), 1);
}

#[test]
fn construction_accepts_allocatable_hardware_specific() {
    let map = map_of(vec![MemoryMapping {
        mem_type: MemoryType::HardwareSpecific(7, true),
        start: 0x200000,
        len: 0x10000,
    }]);
    let alloc = MemoryMapAlloc::new(map).unwrap();
    assert_eq!(alloc.table_address(), 0x200000);
}

#[test]
fn construction_rejects_map_without_allocatable_space() {
    // A memory map of only reserved and faulty mappings cannot host the
    // table: construction must fail, never panic.
    let map = map_of(vec![
        MemoryMapping { mem_type: MemoryType::Reserved, start: 0x1000, len: 0x100000 },
        MemoryMapping { mem_type: MemoryType::Faulty, start: 0x200000, len: 0x100000 },
    ]);
    let err = MemoryMapAlloc::new(map).unwrap_err();
    assert_eq!(err.code(), ALLOCATIONS_NOT_ENOUGH_SPACE);
}

#[test]
fn construction_rejects_too_small_free_mappings() {
    let map = map_of(vec![MemoryMapping { mem_type: MemoryType::Free, start: 0x1000, len: 100 }]);
    let err = MemoryMapAlloc::new(map).unwrap_err();
    assert_eq!(err.code(), ALLOCATIONS_NOT_ENOUGH_SPACE);
}

#[test]
fn allocation_scenario_one_free_mapping() {
    // One free mapping [0x100000, 0x200000): construction places the
    // table at its start; a page-aligned request returns the highest
    // aligned address; releasing and repeating returns the same address.
    let mut alloc = MemoryMapAlloc::new(one_free_megabyte()).unwrap();
    assert_eq!(alloc.table_address(), 0x100000);
    let addr = alloc.allocate(4096, 4096).unwrap();
    assert_eq!(addr % 4096, 0);
    assert!(addr >= 0x100000 + alloc.table_length());
    assert!(addr <= 0x1FF000);
    assert_eq!(addr, 0x1FF000);
    alloc.deallocate(addr, 4096).unwrap();
    let again = alloc.allocate(4096, 4096).unwrap();
    assert_eq!(again, addr);
}

#[test]
fn allocate_returns_aligned_addresses() {
    // The search steps downward by the request's size, so an aligned
    // address is only ever met when the size and the alignment agree:
    // a deliberate precision/performance tradeoff of the allocator.
    let mut alloc = MemoryMapAlloc::new(one_free_megabyte()).unwrap();
    for align in [1usize, 2, 4, 8, 16, 64, 4096, 1 << 16] {
        let addr = alloc.allocate(align as u64, align).unwrap();
        assert_eq!(addr as usize % align, 0);
    }
}

#[test]
fn allocate_rejects_malformed_requests() {
    let mut alloc = MemoryMapAlloc::new(one_free_megabyte()).unwrap();
    assert_eq!(alloc.allocate(0, 1).unwrap_err().code(), INVALID_CONSTRAINT);
    assert_eq!(alloc.allocate(1, 0).unwrap_err().code(), INVALID_CONSTRAINT);
}

#[test]
fn allocate_fails_when_no_region_fits() {
    let mut alloc = MemoryMapAlloc::new(one_free_megabyte()).unwrap();
    let err = alloc.allocate(0x200000, 1).unwrap_err();
    assert_eq!(err.code(), FREE_MEMORY_UNAVAILABLE);
}

#[test]
fn deallocate_unknown_address_is_rejected() {
    let mut alloc = MemoryMapAlloc::new(one_free_megabyte()).unwrap();
    let err = alloc.deallocate(0x123456, 1).unwrap_err();
    assert_eq!(err.code(), MEMORY_NOT_ALLOCATED);
}

#[test]
fn round_trip_keeps_capacity_and_reuses_address() {
    let mut alloc = MemoryMapAlloc::new(one_free_megabyte()).unwrap();
    let records_before = alloc.number_of_allocations();
    let a = alloc.allocate(64, 4).unwrap();
    alloc.deallocate(a, 64).unwrap();
    let b = alloc.allocate(64, 4).unwrap();
    assert_eq!(a, b);
    alloc.deallocate(b, 64).unwrap();
    // Only table housekeeping may have changed: the same record slot is
    // reused, no new one appears.
    assert_eq!(alloc.number_of_allocations(), records_before);
}

#[test]
fn used_records_never_overlap() {
    // Mixed allocate/deallocate traffic: after every operation the used
    // records are pairwise disjoint and clear of the table.
    let mut alloc = MemoryMapAlloc::new(one_free_megabyte()).unwrap();
    let mut live: Vec<(u64, u64)> = Vec::new();
    let sizes = [64u64, 128, 32, 256, 16, 512, 8, 1024];
    for (step, size) in sizes.iter().enumerate() {
        let addr = alloc.allocate(*size, 8).unwrap();
        live.push((addr, *size));
        if step % 3 == 2 {
            let (a, s) = live.remove(step % live.len());
            alloc.deallocate(a, s).unwrap();
        }
        check_no_overlap(&alloc);
    }
    for (a, s) in live {
        alloc.deallocate(a, s).unwrap();
        check_no_overlap(&alloc);
    }
}

fn check_no_overlap(alloc: &MemoryMapAlloc) {
    let n = alloc.number_of_allocations();
    let table = (alloc.table_address(), 32 + alloc.table_length());
    let mut used: Vec<(u64, u64)> = vec![table];
    for i in 0..n {
        let rec = alloc.record_at(i as usize).unwrap();
        if rec.used {
            for (a, l) in &used {
                assert!(rec.addr + rec.len <= *a || a + l <= rec.addr);
            }
            used.push((rec.addr, rec.len));
        }
    }
}

#[test]
fn exhaustion_fails_cleanly_after_enough_single_bytes() {
    // A small free mapping of known size: one-byte allocations must
    // succeed many times over, then fail with a table-full or
    // no-suitable-region error, and the allocator must stay consistent.
    let size: u64 = 8192;
    let mut alloc = MemoryMapAlloc::new(
        map_of(vec![MemoryMapping { mem_type: MemoryType::Free, start: 0x100000, len: size }]),
    )
    .unwrap();
    let mut count: u64 = 0;
    let mut last_addr = 0;
    let failure = loop {
        match alloc.allocate(1, 1) {
            Ok(addr) => {
                count += 1;
                last_addr = addr;
            },
            Err(e) => break e,
        }
    };
    assert!(count >= size / 32);
    let code = failure.code();
    assert!(code == TOO_MANY_ALLOCATIONS || code == FREE_MEMORY_UNAVAILABLE);
    // No silent corruption: the table is still coherent and a release
    // plus retry still works.
    check_no_overlap(&alloc);
    alloc.deallocate(last_addr, 1).unwrap();
    let again = alloc.allocate(1, 1).unwrap();
    assert_eq!(again, last_addr);
}

#[test]
fn coalescing_merges_adjacent_free_records() {
    // Build two used records that are adjacent in the table and
    // contiguous in addresses (the alignment forces the first request
    // below the second), then free both: the coalescing pass grows the
    // first record by the second's length and empties the second slot.
    let end: u64 = 0x101000;
    let mut alloc = MemoryMapAlloc::new(
        map_of(vec![MemoryMapping { mem_type: MemoryType::Free, start: 0x100000, len: 0x1000 }]),
    )
    .unwrap();
    let a = alloc.allocate(100, 1).unwrap();
    assert_eq!(a, end - 100);
    let b = alloc.allocate(100, 1).unwrap();
    assert_eq!(b, end - 200);
    alloc.deallocate(a, 100).unwrap();
    alloc.deallocate(b, 100).unwrap();
    // end - 100 is not a multiple of 8, end - 200 is: the next request
    // lands below the free block above it, reusing the first slot.
    let d = alloc.allocate(100, 8).unwrap();
    assert_eq!(d, end - 200);
    let e = alloc.allocate(100, 1).unwrap();
    assert_eq!(e, end - 100);
    let rec0 = alloc.record_at(0).unwrap();
    let rec1 = alloc.record_at(1).unwrap();
    assert!(rec0.used && rec0.addr == end - 200 && rec0.len == 100);
    assert!(rec1.used && rec1.addr == end - 100 && rec1.len == 100);
    let live_before = count_live(&alloc);
    alloc.deallocate(d, 100).unwrap();
    alloc.deallocate(e, 100).unwrap();
    let rec0 = alloc.record_at(0).unwrap();
    let rec1 = alloc.record_at(1).unwrap();
    assert!(!rec0.used);
    assert_eq!(rec0.addr, end - 200);
    assert_eq!(rec0.len, 200);
    assert!(!rec1.used);
    assert_eq!(rec1.addr, 0);
    assert_eq!(rec1.len, 0);
    assert!(count_live(&alloc) < live_before);
}

fn count_live(alloc: &MemoryMapAlloc) -> usize {
    let mut live = 0;
    for i in 0..alloc.number_of_allocations() {
        let rec = alloc.record_at(i as usize).unwrap();
        if rec.used || rec.len > 0 {
            live += 1;
        }
    }
    live
}

#[test]
fn merge_contiguous_allocations_is_idempotent_on_clean_tables() {
    let mut alloc = MemoryMapAlloc::new(one_free_megabyte()).unwrap();
    let a = alloc.allocate(100, 1).unwrap();
    alloc.merge_contiguous_allocations();
    let rec0 = alloc.record_at(0).unwrap();
    assert!(rec0.used && rec0.addr == a && rec0.len == 100);
}

#[test]
fn extend_allocation_grows_into_free_space_only() {
    let end: u64 = 0x101000;
    let mut alloc = MemoryMapAlloc::new(
        map_of(vec![MemoryMapping { mem_type: MemoryType::Free, start: 0x100000, len: 0x1000 }]),
    )
    .unwrap();
    // Two address-contiguous blocks, the lower one in slot 0 (see the
    // coalescing test for the alignment trick).
    let a = alloc.allocate(100, 1).unwrap();
    let b = alloc.allocate(100, 1).unwrap();
    alloc.deallocate(a, 100).unwrap();
    alloc.deallocate(b, 100).unwrap();
    let d = alloc.allocate(100, 8).unwrap();
    assert_eq!(d, end - 200);
    let e = alloc.allocate(100, 1).unwrap();
    assert_eq!(e, end - 100);
    // Slot 0 cannot grow: the next allocation sits right above it.
    let err = alloc.extend_allocation(0, 50).unwrap_err();
    assert_eq!(err.code(), EXTEND_ALLOCATION_OTHER_ALLOCATION);
    // Release the neighbour and it can.
    alloc.deallocate(e, 100).unwrap();
    alloc.extend_allocation(0, 50).unwrap();
    let rec = alloc.record_at(0).unwrap();
    assert!(rec.used);
    assert_eq!(rec.addr, end - 200);
    assert_eq!(rec.len, 150);
    // A tombstoned slot cannot be extended, nor one past the table.
    let err = alloc.extend_allocation(1, 1).unwrap_err();
    assert_eq!(err.code(), EXTEND_ALLOCATION_ALLOCATION_UNUSED);
    let err = alloc.extend_allocation(99, 1).unwrap_err();
    assert_eq!(err.code(), EXTEND_ALLOCATION_INVALID_INDEX);
}

#[test]
fn uninitialized_seam_reports_its_own_error() {
    let mut seam = MaybeMemoryMapAlloc::new(None);
    assert!(seam.last_error().is_none());
    assert!(seam.alloc_untyped(16, 8).is_none());
    assert_eq!(seam.last_error().unwrap().code(), MAYBE_MEMORY_MAP_ALLOC_UNINITALIZED);
    let err = seam.allocate(16, 8).unwrap_err();
    assert_eq!(err.code(), MAYBE_MEMORY_MAP_ALLOC_UNINITALIZED);
}

#[test]
fn seam_stashes_the_last_failure_and_clears_it_on_success() {
    let inner = MemoryMapAlloc::new(one_free_megabyte()).unwrap();
    let mut seam = MaybeMemoryMapAlloc::new(None);
    seam.add_alloc(inner);
    assert!(!seam.dealloc_untyped(0x42, 1));
    assert_eq!(seam.last_error().unwrap().code(), MEMORY_NOT_ALLOCATED);
    let addr = seam.alloc_untyped(32, 16).unwrap();
    assert_eq!(addr % 16, 0);
    assert!(seam.last_error().is_none());
    assert!(seam.dealloc_untyped(addr, 32));
    assert!(seam.last_error().is_none());
    assert_eq!(seam.allocate(0, 1).unwrap_err().code(), INVALID_CONSTRAINT);
    assert_eq!(seam.last_error().unwrap().code(), INVALID_CONSTRAINT);
}

#[test]
fn table_grows_in_place_past_the_baseline() {
    // More live allocations than the baseline table can hold: the
    // backing region must grow in place, never relocate.
    let mut alloc = MemoryMapAlloc::new(one_free_megabyte()).unwrap();
    let base = alloc.table_address();
    for _ in 0..40 {
        alloc.allocate(8, 1).unwrap();
    }
    assert_eq!(alloc.table_address(), base);
    assert!(alloc.table_length() > 24 * 32);
    assert_eq!(alloc.number_of_allocations(), 40);
    check_no_overlap(&alloc);
}
