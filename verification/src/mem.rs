//! Memory allocation: a physical-memory allocator driven by a
//! firmware-supplied memory map.
//!
//! The allocator keeps an allocation table: a header describing the
//! table's placement and capacity, and an array of allocation records.
//! The table lives inside the first allocatable mapping large enough to
//! host a baseline of records; it is placed once, at construction, and
//! grows in place, never relocating. On the machine the table occupies
//! the start of that mapping; here the records are held as plain values
//! and every address computation is carried out on the same numbers the
//! in-place table would use, so that each placement decision is exactly
//! the one the raw table write would commit.
//!
//! The allocator is meant for a single-core, pre-scheduler boot phase
//! only: nothing here takes care of mutual exclusion.

use vstd::prelude::*;

use crate::boot::{MemoryMap, MemoryMapping, spec_allocatable};
use crate::errors::Error;

verus! {

/// Number of bytes one allocation record occupies in the table's backing
/// region.
pub const ALLOCATION_SIZE: u64 = 24;

/// Number of bytes the allocation table's header occupies.
pub const ALLOCATION_HEADER_SIZE: u64 = 32;

/// The baseline record capacity a mapping must be able to host before
/// the table is placed in it.
pub const MIN_ALLOCATIONS: u64 = 32;

/// Error returned when free memory is not available.
pub const FREE_MEMORY_UNAVAILABLE: i16 = -1;

/// Too many allocations have been created, pushing the size of the
/// allocation table over the space its hosting mapping can give it.
pub const TOO_MANY_ALLOCATIONS: i16 = -2;

/// There isn't enough space for 32 allocations (the minimum available).
pub const ALLOCATIONS_NOT_ENOUGH_SPACE: i16 = -3;

/// Error returned when memory wasn't allocated.
pub const MEMORY_NOT_ALLOCATED: i16 = -7;

/// Error returned when the [`MaybeMemoryMapAlloc`] doesn't have an
/// initalized allocator.
pub const MAYBE_MEMORY_MAP_ALLOC_UNINITALIZED: i16 = -8;

/// The index provided to [`MemoryMapAlloc::extend_allocation`] is too
/// big.
pub const EXTEND_ALLOCATION_INVALID_INDEX: i16 = -4;

/// The allocation provided to [`MemoryMapAlloc::extend_allocation`] is
/// unused.
pub const EXTEND_ALLOCATION_ALLOCATION_UNUSED: i16 = -5;

/// The allocation provided to [`MemoryMapAlloc::extend_allocation`], if
/// extended, would extend into another allocation.
pub const EXTEND_ALLOCATION_OTHER_ALLOCATION: i16 = -6;

/// Error returned when a request is malformed: a zero size or a zero
/// alignment.
pub const INVALID_CONSTRAINT: i16 = -9;

/// One allocation record of the allocation table.
#[derive(Clone, Copy, PartialEq, Eq, Structural, Debug)]
pub struct Allocation {
    /// Whether this allocation is used. This is used so that the entire
    /// allocation table doesn't need to be shifted back on every
    /// allocation: an unused record is a tombstone, eligible for reuse.
    pub used: bool,
    /// The starting address of the allocation.
    pub addr: u64,
    /// The length of the allocation.
    pub len: u64,
}

/// The allocation table's header.
#[derive(Clone, Copy, Debug)]
pub struct AllocationHeader {
    /// Whether this allocation table is used. Kept for parity with
    /// [`Allocation`]s.
    pub used: bool,
    /// The starting address of the record array, one header's size past
    /// the start of the table itself.
    pub addr: u64,
    /// The length in bytes of the record region of the allocation table.
    pub len: u64,
    /// The number of allocations in the allocation table.
    pub num_allocations: u64,
}

/// The mathematical state of a [`MemoryMapAlloc`]: the memory map it
/// reads, the placement and capacity of its allocation table, and the
/// records the table holds.
pub ghost struct AllocState {
    /// The mappings of the memory map, in map order.
    pub maps: Seq<MemoryMapping>,
    /// The address of the record array (the table's header sits one
    /// header's size below it).
    pub rec_base: int,
    /// The byte length of the record region.
    pub backing: int,
    /// The byte budget of the table inside its hosting mapping.
    pub cap: int,
    /// The records, in table order.
    pub recs: Seq<Allocation>,
}

/// The address the allocation table starts at: its header's address.
pub open spec fn table_start(s: AllocState) -> int {
    s.rec_base - ALLOCATION_HEADER_SIZE
}

/// One past the last address of the allocation table's backing range.
pub open spec fn table_end(s: AllocState) -> int {
    s.rec_base + s.backing
}

/// Whether the byte ranges `[a1, a1 + l1)` and `[a2, a2 + l2)` share an
/// address.
pub open spec fn ranges_overlap(a1: int, l1: int, a2: int, l2: int) -> bool {
    l1 > 0 && l2 > 0 && a1 < a2 + l2 && a2 < a1 + l1
}

/// Whether the byte range `[addr, addr + len)` intersects the allocation
/// table's backing range or any used allocation record.
pub open spec fn blocked(s: AllocState, addr: int, len: int) -> bool {
    ||| ranges_overlap(addr, len, table_start(s), ALLOCATION_HEADER_SIZE + s.backing)
    ||| exists|i: int|
        0 <= i < s.recs.len() && s.recs[i].used && ranges_overlap(
            addr,
            len,
            s.recs[i].addr as int,
            s.recs[i].len as int,
        )
}

/// Whether every mapping of the memory map ends low enough that table
/// and allocation addresses computed from it stay within `u64`.
pub open spec fn map_wf(maps: Seq<MemoryMapping>) -> bool {
    forall|i: int|
        0 <= i < maps.len() ==> (#[trigger] maps[i]).start + maps[i].len
            + ALLOCATION_HEADER_SIZE <= u64::MAX
}

/// The allocator's invariant. Among its clauses is the one the whole
/// design defends: no two used records overlap, and none overlaps the
/// allocation table's own backing range.
pub open spec fn wf(s: AllocState) -> bool {
    &&& map_wf(s.maps)
    &&& s.recs.len() >= 1
    &&& table_start(s) >= 0
    &&& s.backing >= MIN_ALLOCATIONS * ALLOCATION_SIZE
    &&& s.backing <= s.cap
    &&& table_start(s) + ALLOCATION_HEADER_SIZE + s.cap <= u64::MAX
    &&& s.recs.len() * ALLOCATION_SIZE <= s.backing
    &&& forall|i: int|
        0 <= i < s.recs.len() ==> (#[trigger] s.recs[i]).addr + s.recs[i].len <= u64::MAX
    &&& forall|i: int| 0 <= i < s.recs.len() && (#[trigger] s.recs[i]).used ==> s.recs[i].len > 0
    &&& forall|i: int|
        0 <= i < s.recs.len() && (#[trigger] s.recs[i]).used ==> !ranges_overlap(
            s.recs[i].addr as int,
            s.recs[i].len as int,
            table_start(s),
            ALLOCATION_HEADER_SIZE + s.backing,
        )
    &&& forall|i: int, j: int|
        0 <= i < s.recs.len() && 0 <= j < s.recs.len() && i != j && (#[trigger] s.recs[i]).used
            && (#[trigger] s.recs[j]).used ==> !ranges_overlap(
            s.recs[i].addr as int,
            s.recs[i].len as int,
            s.recs[j].addr as int,
            s.recs[j].len as int,
        )
}

/// A implementation of a physical memory allocator that uses a
/// [`crate::boot::MemoryMap`].
#[derive(Debug)]
pub struct MemoryMapAlloc {
    /// The memory map to use to allocate memory.
    pub memory_map: MemoryMap,
    allocationheader: AllocationHeader,
    allocations: Vec<Allocation>,
    max_allocations_size: u64,
}

impl View for MemoryMapAlloc {
    type V = AllocState;

    closed spec fn view(&self) -> AllocState {
        AllocState {
            maps: self.memory_map.sections@,
            rec_base: self.allocationheader.addr as int,
            backing: self.allocationheader.len as int,
            cap: self.max_allocations_size as int,
            recs: self.allocations@,
        }
    }
}

/// The index of the first mapping the allocation table may be placed in:
/// the first that is allocatable and can host the baseline record count.
pub open spec fn spec_first_table_mapping(maps: Seq<MemoryMapping>) -> Option<int>
    decreases maps.len(),
{
    if maps.len() == 0 {
        None
    } else if spec_allocatable(maps[0].mem_type) && maps[0].len >= MIN_ALLOCATIONS
        * ALLOCATION_SIZE {
        Some(0)
    } else {
        match spec_first_table_mapping(maps.skip(1)) {
            Some(i) => Some(i + 1),
            None => None,
        }
    }
}

/// Searching one mapping for a block: the first address among `addr`,
/// `addr - size`, `addr - 2 * size`, ... (down to `lo`) that satisfies
/// the alignment and does not intersect the allocation table or a used
/// record. The search starts at the highest address the request could
/// occupy and walks downward in steps of the request's size.
pub open spec fn spec_search_down(s: AllocState, lo: int, addr: int, size: int, align: int) -> Option<
    int,
>
    decreases addr - lo
        when size >= 1
{
    if addr < lo {
        None
    } else if addr % align == 0 && !blocked(s, addr, size) {
        Some(addr)
    } else if addr - size < lo {
        None
    } else {
        spec_search_down(s, lo, addr - size, size, align)
    }
}

/// The address the allocator hands out for a request, if any: mappings
/// are scanned in map order, the first allocatable mapping at least as
/// long as the request is searched from its top downward, and the first
/// mapping that yields an address wins.
pub open spec fn spec_find(s: AllocState, maps: Seq<MemoryMapping>, size: int, align: int) -> Option<
    int,
>
    decreases maps.len(),
{
    if maps.len() == 0 {
        None
    } else {
        let m = maps[0];
        let cand = if spec_allocatable(m.mem_type) && m.len >= size {
            spec_search_down(s, m.start as int, m.start + m.len - size, size, align)
        } else {
            None
        };
        if cand is Some {
            cand
        } else {
            spec_find(s, maps.skip(1), size, align)
        }
    }
}

/// What an address the downward search returns satisfies: it is aligned,
/// it does not intersect the table or a used record, and the requested
/// range lies between `lo` and one step above the starting point.
pub proof fn lemma_search_down_props(s: AllocState, lo: int, addr: int, size: int, align: int)
    requires
        size >= 1,
        align >= 1,
        spec_search_down(s, lo, addr, size, align) is Some,
    ensures
        ({
            let a = spec_search_down(s, lo, addr, size, align).unwrap();
            &&& lo <= a <= addr
            &&& a % align == 0
            &&& !blocked(s, a, size)
        }),
    decreases addr - lo,
{
    if addr < lo {
    } else if addr % align == 0 && !blocked(s, addr, size) {
    } else if addr - size < lo {
    } else {
        lemma_search_down_props(s, lo, addr - size, size, align);
    }
}

/// What an address found for a request satisfies: it is aligned, it does
/// not intersect the table or a used record, and the requested range
/// lies inside one allocatable mapping.
pub proof fn lemma_find_props(s: AllocState, maps: Seq<MemoryMapping>, size: int, align: int)
    requires
        size >= 1,
        align >= 1,
        spec_find(s, maps, size, align) is Some,
    ensures
        ({
            let a = spec_find(s, maps, size, align).unwrap();
            &&& a % align == 0
            &&& !blocked(s, a, size)
            &&& exists|i: int|
                0 <= i < maps.len() && spec_allocatable(#[trigger] maps[i].mem_type)
                    && maps[i].start <= a && a + size <= maps[i].start + maps[i].len
        }),
    decreases maps.len(),
{
    let m = maps[0];
    let cand = if spec_allocatable(m.mem_type) && m.len >= size {
        spec_search_down(s, m.start as int, m.start + m.len - size, size, align)
    } else {
        None
    };
    if cand is Some {
        lemma_search_down_props(s, m.start as int, m.start + m.len - size, size, align);
        assert(maps[0] == m);
    } else {
        lemma_find_props(s, maps.skip(1), size, align);
        let a = spec_find(s, maps.skip(1), size, align).unwrap();
        let i = choose|i: int|
            0 <= i < maps.skip(1).len() && spec_allocatable(#[trigger] maps.skip(1)[i].mem_type)
                && maps.skip(1)[i].start <= a && a + size <= maps.skip(1)[i].start + maps.skip(
                1,
            )[i].len;
        assert(maps.skip(1)[i] == maps[i + 1]);
        assert(spec_allocatable(maps[i + 1].mem_type) && maps[i + 1].start <= a && a + size
            <= maps[i + 1].start + maps[i + 1].len);
    }
}

/// The index of the first tombstoned (unused) record at or past `i`,
/// eligible for reuse.
pub open spec fn spec_first_free_slot(recs: Seq<Allocation>, i: int) -> Option<int>
    decreases recs.len() - i
        when 0 <= i
{
    if i >= recs.len() {
        None
    } else if !recs[i].used {
        Some(i)
    } else {
        spec_first_free_slot(recs, i + 1)
    }
}

/// Whether growing the table's backing region by one record's worth of
/// bytes would run into a used record or into `rec`, the record about to
/// be written.
pub open spec fn grow_blocked(s: AllocState, rec: Allocation) -> bool {
    ||| blocked(s, table_end(s), ALLOCATION_SIZE as int)
    ||| ranges_overlap(table_end(s), ALLOCATION_SIZE as int, rec.addr as int, rec.len as int)
}

/// The state after recording the allocation `[addr, addr + size)` in the
/// table, or `None` when the table is full: the first tombstoned slot is
/// reused; otherwise a slot is appended, growing the backing region in
/// place by one record's worth of bytes if needed — growth subject to
/// the same overlap check as any allocation.
pub open spec fn spec_track(s: AllocState, addr: u64, size: u64) -> Option<AllocState> {
    let rec = Allocation { used: true, addr, len: size };
    match spec_first_free_slot(s.recs, 0) {
        Some(i) => Some(AllocState { recs: s.recs.update(i, rec), ..s }),
        None => {
            if (s.recs.len() + 1) * ALLOCATION_SIZE <= s.backing {
                Some(AllocState { recs: s.recs.push(rec), ..s })
            } else if s.backing + ALLOCATION_SIZE < s.cap && !grow_blocked(s, rec) {
                Some(
                    AllocState {
                        backing: s.backing + ALLOCATION_SIZE,
                        recs: s.recs.push(rec),
                        ..s
                    },
                )
            } else {
                None
            }
        },
    }
}

/// The empty record a merged-away slot is left as: a tombstone with
/// address and length zero.
pub open spec fn empty_rec() -> Allocation {
    Allocation { used: false, addr: 0, len: 0 }
}

/// One absorb scan of the coalescing pass: walking the slots after `j - 1`
/// in table order, the free record at slot `i` absorbs every free record
/// whose range starts exactly where slot `i` currently ends, growing slot
/// `i` and tombstoning the absorbed slot; the scan stops at the first
/// used record.
pub open spec fn spec_absorb(recs: Seq<Allocation>, i: int, j: int) -> Seq<Allocation>
    decreases recs.len() - j
        when 0 <= i < j
{
    if j >= recs.len() {
        recs
    } else if recs[j].used {
        recs
    } else if recs[j].len > 0 && recs[i].addr + recs[i].len == recs[j].addr {
        spec_absorb(
            recs.update(
                i,
                Allocation {
                    used: false,
                    addr: recs[i].addr,
                    len: (recs[i].len + recs[j].len) as u64,
                },
            ).update(j, empty_rec()),
            i,
            j + 1,
        )
    } else {
        spec_absorb(recs, i, j + 1)
    }
}

proof fn lemma_absorb_len(recs: Seq<Allocation>, i: int, j: int)
    requires
        0 <= i < j,
    ensures
        spec_absorb(recs, i, j).len() == recs.len(),
    decreases recs.len() - j,
{
    if j >= recs.len() {
    } else if recs[j].used {
    } else if recs[j].len > 0 && recs[i].addr + recs[i].len == recs[j].addr {
        lemma_absorb_len(
            recs.update(
                i,
                Allocation {
                    used: false,
                    addr: recs[i].addr,
                    len: (recs[i].len + recs[j].len) as u64,
                },
            ).update(j, empty_rec()),
            i,
            j + 1,
        );
    } else {
        lemma_absorb_len(recs, i, j + 1);
    }
}

#[via_fn]
proof fn spec_merge_decreases(recs: Seq<Allocation>, i: int) {
    if 0 <= i < recs.len() && !recs[i].used && recs[i].len > 0 {
        lemma_absorb_len(recs, i, i + 1);
    }
}

/// One full coalescing pass over the table slots in table order (not
/// address order): each free slot absorbs the free slots after it whose
/// ranges continue its own, as [`spec_absorb`] says. Two address-adjacent
/// free ranges only merge if a scan in table order reaches one from the
/// other.
pub open spec fn spec_merge(recs: Seq<Allocation>, i: int) -> Seq<Allocation>
    decreases recs.len() - i
        when 0 <= i
        via spec_merge_decreases
{
    if i >= recs.len() {
        recs
    } else if !recs[i].used && recs[i].len > 0 {
        spec_merge(spec_absorb(recs, i, i + 1), i + 1)
    } else {
        spec_merge(recs, i + 1)
    }
}

/// The index of the first used record with the given address.
pub open spec fn spec_find_used_addr(recs: Seq<Allocation>, i: int, addr: u64) -> Option<int>
    decreases recs.len() - i
        when 0 <= i
{
    if i >= recs.len() {
        None
    } else if recs[i].used && recs[i].addr == addr {
        Some(i)
    } else {
        spec_find_used_addr(recs, i + 1, addr)
    }
}

/// The state after releasing the allocation at `addr`, or `None` when no
/// used record has that address: the first used record with that address
/// is tombstoned and a coalescing pass is run.
pub open spec fn spec_dealloc(s: AllocState, addr: u64) -> Option<AllocState> {
    match spec_find_used_addr(s.recs, 0, addr) {
        Some(i) => Some(
            AllocState {
                recs: spec_merge(
                    s.recs.update(i, Allocation { used: false, ..s.recs[i] }),
                    0,
                ),
                ..s
            },
        ),
        None => None,
    }
}

/// The outcome the allocator owes a request: the address handed out and
/// the state after recording it, or the exact error code. A malformed
/// request (zero size or zero alignment) is rejected; then the search of
/// [`spec_find`] decides, and if an address is found, the bookkeeping of
/// [`spec_track`] must still succeed — a full table fails the allocation
/// even though a valid address was found.
pub open spec fn spec_allocate(s: AllocState, size: u64, align: usize) -> Result<
    (AllocState, u64),
    i16,
> {
    if size == 0 || align == 0 {
        Err(INVALID_CONSTRAINT)
    } else {
        match spec_find(s, s.maps, size as int, align as int) {
            None => Err(FREE_MEMORY_UNAVAILABLE),
            Some(a) => match spec_track(s, a as u64, size) {
                Some(s2) => Ok((s2, a as u64)),
                None => Err(TOO_MANY_ALLOCATIONS),
            },
        }
    }
}

impl MemoryMapAlloc {
    /// Whether the exec structure agrees with itself: the header's
    /// record count is the record vector's length, and the view is
    /// well-formed.
    pub closed spec fn inv(&self) -> bool {
        &&& self.allocationheader.num_allocations == self.allocations@.len()
        &&& self.allocationheader.used
        &&& wf(self@)
    }

    /// Creates a new [`MemoryMapAlloc`]. Please call this method instead
    /// of creating it manually!
    ///
    /// This method internally stores the memory map in the outputted
    /// MemoryMapAlloc. It iterates the mappings once and places the
    /// allocation table at the start of the first allocatable mapping
    /// that can host the baseline record count, with one tombstoned
    /// placeholder record; it fails, and touches nothing, when no
    /// mapping qualifies.
    pub fn new(memory_map: MemoryMap) -> (r: Result<MemoryMapAlloc, Error<'static>>)
        requires
            map_wf(memory_map.sections@),
        ensures
            r matches Ok(a) ==> {
                &&& spec_first_table_mapping(memory_map.sections@) matches Some(mi)
                &&& a.inv()
                &&& a@.maps == memory_map.sections@
                &&& table_start(a@) == memory_map.sections@[mi].start
                &&& a@.backing == MIN_ALLOCATIONS * ALLOCATION_SIZE
                &&& a@.cap == memory_map.sections@[mi].len
                &&& a@.recs == seq![Allocation { used: false, addr: 0, len: 0 }]
            },
            r matches Err(e) ==> {
                &&& spec_first_table_mapping(memory_map.sections@) is None
                &&& e.spec_code() == ALLOCATIONS_NOT_ENOUGH_SPACE
            },
    {
        let mut chosen: Option<usize> = None;
        let mut i: usize = 0;
        let ghost maps = memory_map.sections@;
        proof {
            assert(maps.skip(0) =~= maps);
        }
        while i < memory_map.sections.len() && chosen.is_none()
            invariant
                i <= maps.len(),
                maps == memory_map.sections@,
                chosen is None ==> spec_first_table_mapping(maps) == (
                match spec_first_table_mapping(maps.skip(i as int)) {
                    Some(v) => Some(v + i as int),
                    None => None::<int>,
                }),
                chosen matches Some(c) ==> {
                    &&& spec_first_table_mapping(maps) == Some(c as int)
                    &&& (c as int) < maps.len()
                    &&& spec_allocatable(maps[c as int].mem_type)
                    &&& maps[c as int].len >= MIN_ALLOCATIONS * ALLOCATION_SIZE
                },
            decreases maps.len() - i,
        {
            let mapping = &memory_map.sections[i];
            proof {
                assert(maps.skip(i as int)[0] == maps[i as int]);
                assert(maps.skip(i as int).skip(1) =~= maps.skip(i + 1));
            }
            if mapping.len >= ALLOCATION_SIZE * MIN_ALLOCATIONS && mapping.mem_type.allocatable() {
                chosen = Some(i);
            }
            i = i + 1;
        }
        if chosen.is_none() {
            proof {
                assert(maps.skip(maps.len() as int) =~= Seq::<MemoryMapping>::empty());
            }
            return Err(
                Error::new("no free memory with space for 32 allocations",
                ALLOCATIONS_NOT_ENOUGH_SPACE),
            );
        }
        let mi = chosen.unwrap();
        let mapping_start = memory_map.sections[mi].start;
        let mapping_len = memory_map.sections[mi].len;
        let mut allocations: Vec<Allocation> = Vec::new();
        allocations.push(Allocation { used: false, addr: 0, len: 0 });
        let out = MemoryMapAlloc {
            memory_map,
            allocationheader: AllocationHeader {
                used: true,
                addr: mapping_start + ALLOCATION_HEADER_SIZE,
                len: ALLOCATION_SIZE * MIN_ALLOCATIONS,
                num_allocations: 1,
            },
            allocations,
            max_allocations_size: mapping_len,
        };
        proof {
            assert(out@.recs =~= seq![Allocation { used: false, addr: 0, len: 0 }]);
        }
        Ok(out)
    }

    /// Returns the number of allocations, used and tombstoned together:
    /// the count only ever grows.
    pub fn number_of_allocations(&self) -> (n: u64)
        requires
            self.inv(),
        ensures
            n == self@.recs.len(),
    {
        self.allocationheader.num_allocations
    }

    /// The address the allocation table starts at.
    pub fn table_address(&self) -> (a: u64)
        requires
            self.inv(),
        ensures
            a == table_start(self@),
    {
        self.allocationheader.addr - ALLOCATION_HEADER_SIZE
    }

    /// The byte length of the allocation table's record region.
    pub fn table_length(&self) -> (l: u64)
        requires
            self.inv(),
        ensures
            l == self@.backing,
    {
        self.allocationheader.len
    }

    /// The allocation record in one slot of the table, used or
    /// tombstoned; `None` past the table's end.
    pub fn record_at(&self, idx: usize) -> (r: Option<Allocation>)
        requires
            self.inv(),
        ensures
            idx < self@.recs.len() ==> r == Some(self@.recs[idx as int]),
            idx >= self@.recs.len() ==> r is None,
    {
        if idx < self.allocations.len() {
            Some(self.allocations[idx])
        } else {
            None
        }
    }

    /// Check to see if any allocations contain the given address. Returns
    /// true if so. The allocation table's own backing range counts.
    fn check_addr(&self, addr: u64) -> (r: bool)
        requires
            self.inv(),
        ensures
            r == blocked(self@, addr as int, 1),
    {
        if addr == u64::MAX {
            proof {
                assert(!ranges_overlap(
                    addr as int,
                    1,
                    table_start(self@),
                    ALLOCATION_HEADER_SIZE + self@.backing,
                ));
                assert(forall|i: int|
                    0 <= i < self@.recs.len() ==> !((#[trigger] self@.recs[i]).used
                        && ranges_overlap(
                        addr as int,
                        1,
                        self@.recs[i].addr as int,
                        self@.recs[i].len as int,
                    )));
            }
            return false;
        }
        self.check_range(addr, 1)
    }

    /// Check to see if a range of addresses have any allocations within.
    /// Returns true if so. The allocation table's own backing range
    /// counts.
    fn check_range(&self, addr: u64, size: u64) -> (r: bool)
        requires
            self.inv(),
            addr + size <= u64::MAX,
        ensures
            r == blocked(self@, addr as int, size as int),
    {
        if size == 0 {
            return false;
        }
        let table_addr = self.allocationheader.addr - ALLOCATION_HEADER_SIZE;
        let table_size = ALLOCATION_HEADER_SIZE + self.allocationheader.len;
        if addr < table_addr + table_size && table_addr < addr + size {
            return true;
        }
        let mut i: usize = 0;
        while i < self.allocations.len()
            invariant
                self.inv(),
                addr + size <= u64::MAX,
                size > 0,
                i <= self@.recs.len(),
                forall|k: int|
                    0 <= k < i ==> !((#[trigger] self@.recs[k]).used && ranges_overlap(
                        addr as int,
                        size as int,
                        self@.recs[k].addr as int,
                        self@.recs[k].len as int,
                    )),
            decreases self@.recs.len() - i,
        {
            let alloc = self.allocations[i];
            if alloc.used && alloc.len > 0 && addr < alloc.addr + alloc.len && alloc.addr < addr
                + size {
                return true;
            }
            i = i + 1;
        }
        false
    }

    /// Finds a free block of memory that can fit the requested size and
    /// alignment: mappings are tried in map order, and inside a mapping
    /// the search descends from the top in steps of the requested size,
    /// so the highest valid address in the first qualifying mapping
    /// wins. Which address that is follows the order the memory map was
    /// produced in.
    fn find_free_block(&self, size: u64, align: usize) -> (r: Option<u64>)
        requires
            self.inv(),
            size >= 1,
            align >= 1,
        ensures
            (match r {
                Some(a) => Some(a as int),
                None => None::<int>,
            }) == spec_find(self@, self@.maps, size as int, align as int),
    {
        let ghost s = self@;
        let ghost maps = self@.maps;
        proof {
            assert(maps.skip(0) =~= maps);
        }
        let mut mi: usize = 0;
        while mi < self.memory_map.sections.len()
            invariant
                self.inv(),
                size >= 1,
                align >= 1,
                s == self@,
                maps == s.maps,
                mi <= maps.len(),
                spec_find(s, maps, size as int, align as int) == spec_find(
                    s,
                    maps.skip(mi as int),
                    size as int,
                    align as int,
                ),
            decreases maps.len() - mi,
        {
            let mapping = self.memory_map.sections[mi];
            proof {
                assert(maps.skip(mi as int)[0] == maps[mi as int]);
                assert(maps.skip(mi as int).skip(1) =~= maps.skip(mi + 1));
            }
            if mapping.len >= size && mapping.mem_type.allocatable() {
                let found = self.search_mapping(&mapping, size, align);
                if let Some(a) = found {
                    return Some(a);
                }
            }
            mi = mi + 1;
        }
        proof {
            assert(maps.skip(maps.len() as int) =~= Seq::<MemoryMapping>::empty());
        }
        None
    }

    /// Track a new allocation in the allocation table: reuse the first
    /// tombstoned slot, or append one, growing the table's backing
    /// region in place when the record array has outgrown it. When the
    /// backing region cannot grow, every bookkeeping step is rolled back
    /// and the table is exactly as it was.
    fn track_allocation(&mut self, addr: u64, size: u64) -> (r: Result<(), Error<'static>>)
        requires
            old(self).inv(),
            size > 0,
            addr + size <= u64::MAX,
            !blocked(old(self)@, addr as int, size as int),
        ensures
            final(self).inv(),
            final(self)@.maps == old(self)@.maps,
            match spec_track(old(self)@, addr, size) {
                Some(s2) => r is Ok && final(self)@ == s2,
                None => r matches Err(e) && e.spec_code() == TOO_MANY_ALLOCATIONS && final(self)@
                    == old(self)@,
            },
    {
        let ghost s = self@;
        let rec = Allocation { used: true, addr, len: size };
        // First try to find an unused slot
        let mut i: usize = 0;
        while i < self.allocations.len()
            invariant
                self.inv(),
                s == self@,
                s == old(self)@,
                rec == (Allocation { used: true, addr, len: size }),
                size > 0,
                addr + size <= u64::MAX,
                !blocked(s, addr as int, size as int),
                i <= s.recs.len(),
                spec_first_free_slot(s.recs, 0) == spec_first_free_slot(s.recs, i as int),
            decreases s.recs.len() - i,
        {
            if !self.allocations[i].used {
                proof {
                    assert(spec_first_free_slot(s.recs, i as int) == Some(i as int));
                }
                self.allocations[i] = rec;
                proof {
                    lemma_track_slot_wf(s, self@, i as int, rec);
                }
                return Ok(());
            }
            i = i + 1;
        }

        // Need to add new slot
        let num_allocs = self.allocationheader.num_allocations + 1;
        if num_allocs <= self.allocationheader.len / ALLOCATION_SIZE {
            proof {
                assert((s.recs.len() + 1) * ALLOCATION_SIZE <= s.backing) by (nonlinear_arith)
                    requires
                        s.recs.len() + 1 <= s.backing / (ALLOCATION_SIZE as int),
                        ALLOCATION_SIZE > 0,
                ;
            }
            self.allocationheader.num_allocations = num_allocs;
            self.allocations.push(rec);
            proof {
                lemma_track_slot_wf(s, self@, s.recs.len() as int, rec);
            }
            return Ok(());
        }
        proof {
            assert(!((s.recs.len() + 1) * ALLOCATION_SIZE <= s.backing)) by (nonlinear_arith)
                requires
                    s.recs.len() + 1 > s.backing / (ALLOCATION_SIZE as int),
                    s.backing >= 0,
                    ALLOCATION_SIZE > 0,
            ;
        }
        // The record array has outgrown the backing region: extend it in
        // place by one record's worth of bytes, subject to the same
        // overlap check as any allocation.
        if self.allocationheader.len + ALLOCATION_SIZE < self.max_allocations_size {
            let new_bytes_start = self.allocationheader.addr + self.allocationheader.len;
            let grow_hits_table = self.check_range(new_bytes_start, ALLOCATION_SIZE);
            let grow_hits_rec = new_bytes_start < addr + size && addr < new_bytes_start
                + ALLOCATION_SIZE;
            if !grow_hits_table && !grow_hits_rec {
                self.allocationheader.num_allocations = num_allocs;
                self.allocationheader.len = self.allocationheader.len + ALLOCATION_SIZE;
                self.allocations.push(rec);
                proof {
                    lemma_track_grow_wf(s, self@, rec);
                }
                return Ok(());
            }
        }
        Err(Error::new("allocation table full", TOO_MANY_ALLOCATIONS))
    }
}

/// The slot-reuse and plain-append cases of tracking preserve the
/// invariant and land on the state [`spec_track`] names.
proof fn lemma_track_slot_wf(s: AllocState, s2: AllocState, i: int, rec: Allocation)
    requires
        wf(s),
        rec.used,
        rec.len > 0,
        rec.addr + rec.len <= u64::MAX,
        !blocked(s, rec.addr as int, rec.len as int),
        0 <= i <= s.recs.len(),
        i < s.recs.len() ==> {
            &&& !s.recs[i].used
            &&& s2 == (AllocState { recs: s.recs.update(i, rec), ..s })
        },
        i == s.recs.len() ==> {
            &&& s2 == (AllocState { recs: s.recs.push(rec), ..s })
            &&& (s.recs.len() + 1) * ALLOCATION_SIZE <= s.backing
        },
    ensures
        wf(s2),
{
    assert forall|k: int| 0 <= k < s2.recs.len() && (#[trigger] s2.recs[k]).used implies
        !ranges_overlap(
        s2.recs[k].addr as int,
        s2.recs[k].len as int,
        table_start(s2),
        ALLOCATION_HEADER_SIZE + s2.backing,
    ) by {
        if k == i {
            assert(!ranges_overlap(
                rec.addr as int,
                rec.len as int,
                table_start(s),
                ALLOCATION_HEADER_SIZE + s.backing,
            ));
        }
    }
    assert forall|k: int, j: int|
        0 <= k < s2.recs.len() && 0 <= j < s2.recs.len() && k != j && (
        #[trigger] s2.recs[k]).used && (#[trigger] s2.recs[j]).used implies !ranges_overlap(
        s2.recs[k].addr as int,
        s2.recs[k].len as int,
        s2.recs[j].addr as int,
        s2.recs[j].len as int,
    ) by {
        if k == i {
            assert(s2.recs[j] == s.recs[j]);
            assert(!ranges_overlap(
                rec.addr as int,
                rec.len as int,
                s.recs[j].addr as int,
                s.recs[j].len as int,
            ));
        } else if j == i {
            assert(s2.recs[k] == s.recs[k]);
            assert(!ranges_overlap(
                rec.addr as int,
                rec.len as int,
                s.recs[k].addr as int,
                s.recs[k].len as int,
            ));
        }
    }
}

/// The growth case of tracking preserves the invariant: the extended
/// backing range stays clear of every used record, including the one
/// being written.
proof fn lemma_track_grow_wf(s: AllocState, s2: AllocState, rec: Allocation)
    requires
        wf(s),
        rec.used,
        rec.len > 0,
        rec.addr + rec.len <= u64::MAX,
        !blocked(s, rec.addr as int, rec.len as int),
        !grow_blocked(s, rec),
        s.backing + ALLOCATION_SIZE < s.cap,
        s2 == (AllocState {
            backing: s.backing + ALLOCATION_SIZE,
            recs: s.recs.push(rec),
            ..s
        }),
    ensures
        wf(s2),
{
    assert((s.recs.len() + 1) * ALLOCATION_SIZE == s.recs.len() * ALLOCATION_SIZE
        + ALLOCATION_SIZE) by (nonlinear_arith);
    assert forall|k: int| 0 <= k < s2.recs.len() && (#[trigger] s2.recs[k]).used implies
        !ranges_overlap(
        s2.recs[k].addr as int,
        s2.recs[k].len as int,
        table_start(s2),
        ALLOCATION_HEADER_SIZE + s2.backing,
    ) by {
        if k < s.recs.len() {
            assert(s2.recs[k] == s.recs[k]);
            assert(!ranges_overlap(
                s.recs[k].addr as int,
                s.recs[k].len as int,
                table_start(s),
                ALLOCATION_HEADER_SIZE + s.backing,
            ));
            assert(!ranges_overlap(
                s.recs[k].addr as int,
                s.recs[k].len as int,
                table_end(s),
                ALLOCATION_SIZE as int,
            ));
        } else {
            assert(s2.recs[k] == rec);
            assert(!ranges_overlap(
                rec.addr as int,
                rec.len as int,
                table_start(s),
                ALLOCATION_HEADER_SIZE + s.backing,
            ));
            assert(!ranges_overlap(
                rec.addr as int,
                rec.len as int,
                table_end(s),
                ALLOCATION_SIZE as int,
            ));
        }
    }
    assert forall|k: int, j: int|
        0 <= k < s2.recs.len() && 0 <= j < s2.recs.len() && k != j && (
        #[trigger] s2.recs[k]).used && (#[trigger] s2.recs[j]).used implies !ranges_overlap(
        s2.recs[k].addr as int,
        s2.recs[k].len as int,
        s2.recs[j].addr as int,
        s2.recs[j].len as int,
    ) by {
        if k == s.recs.len() as int {
            assert(!ranges_overlap(
                rec.addr as int,
                rec.len as int,
                s.recs[j].addr as int,
                s.recs[j].len as int,
            ));
        } else if j == s.recs.len() as int {
            assert(!ranges_overlap(
                rec.addr as int,
                rec.len as int,
                s.recs[k].addr as int,
                s.recs[k].len as int,
            ));
        }
    }
}

/// The state after extending the allocation in slot `idx` by `by`
/// bytes, or the exact error code: the slot must exist and hold a used
/// record, and the added byte range must be free — past the top of the
/// address space nothing is.
pub open spec fn spec_extend(s: AllocState, idx: u64, by: u64) -> Result<AllocState, i16> {
    if idx >= s.recs.len() {
        Err(EXTEND_ALLOCATION_INVALID_INDEX)
    } else {
        let rec = s.recs[idx as int];
        if !rec.used {
            Err(EXTEND_ALLOCATION_ALLOCATION_UNUSED)
        } else if rec.addr + rec.len + by > u64::MAX || blocked(
            s,
            rec.addr + rec.len,
            by as int,
        ) {
            Err(EXTEND_ALLOCATION_OTHER_ALLOCATION)
        } else {
            Ok(
                AllocState {
                    recs: s.recs.update(
                        idx as int,
                        Allocation { len: (rec.len + by) as u64, ..rec },
                    ),
                    ..s
                },
            )
        }
    }
}

impl MemoryMapAlloc {
    /// Extend an allocation. This has numerous checks, so please use
    /// this instead of manually changing a record's length: the bytes
    /// the record grows over are subject to the same overlap check as
    /// any allocation, and nothing changes when any check fails.
    pub fn extend_allocation(&mut self, idx: u64, by: u64) -> (r: Result<(), Error<'static>>)
        requires
            old(self).inv(),
        ensures
            final(self).inv(),
            final(self)@.maps == old(self)@.maps,
            match spec_extend(old(self)@, idx, by) {
                Ok(s2) => r is Ok && final(self)@ == s2,
                Err(code) => r matches Err(e) && e.spec_code() == code && final(self)@ == old(
                    self,
                )@,
            },
    {
        let ghost s = self@;
        let slots = self.allocations.len();
        if idx >= slots as u64 {
            return Err(
                Error::new("the index provided to extend_allocation is too large",
                EXTEND_ALLOCATION_INVALID_INDEX),
            );
        }
        let alloc = self.allocations[idx as usize];
        proof {
            assert(idx as int == (idx as usize) as int);
            assert(alloc == s.recs[idx as int]);
        }
        if !alloc.used {
            return Err(
                Error::new("the allocation provided to extend_allocation is unused",
                EXTEND_ALLOCATION_ALLOCATION_UNUSED),
            );
        }
        let headroom = u64::MAX - (alloc.addr + alloc.len);
        if by > headroom || self.check_range(alloc.addr + alloc.len, by) {
            return Err(
                Error::new("the allocation, if extended, would extend into another allocation",
                EXTEND_ALLOCATION_OTHER_ALLOCATION),
            );
        }
        self.allocations[idx as usize] =
        Allocation { used: true, addr: alloc.addr, len: alloc.len + by };
        proof {
            let s2 = self@;
            assert(s2.recs == s.recs.update(
                idx as int,
                Allocation { len: (alloc.len + by) as u64, ..alloc },
            ));
            assert forall|k: int| 0 <= k < s2.recs.len() && (#[trigger] s2.recs[k]).used implies
                !ranges_overlap(
                s2.recs[k].addr as int,
                s2.recs[k].len as int,
                table_start(s2),
                ALLOCATION_HEADER_SIZE + s2.backing,
            ) by {
                if k == idx {
                    assert(!ranges_overlap(
                        alloc.addr as int,
                        alloc.len as int,
                        table_start(s),
                        ALLOCATION_HEADER_SIZE + s.backing,
                    ));
                    assert(!ranges_overlap(
                        alloc.addr + alloc.len,
                        by as int,
                        table_start(s),
                        ALLOCATION_HEADER_SIZE + s.backing,
                    ));
                }
            }
            assert forall|k: int, j: int|
                0 <= k < s2.recs.len() && 0 <= j < s2.recs.len() && k != j && (
                #[trigger] s2.recs[k]).used && (#[trigger] s2.recs[j]).used implies
                !ranges_overlap(
                s2.recs[k].addr as int,
                s2.recs[k].len as int,
                s2.recs[j].addr as int,
                s2.recs[j].len as int,
            ) by {
                if k == idx {
                    assert(s2.recs[j] == s.recs[j]);
                    assert(!ranges_overlap(
                        alloc.addr as int,
                        alloc.len as int,
                        s.recs[j].addr as int,
                        s.recs[j].len as int,
                    ));
                    assert(!ranges_overlap(
                        alloc.addr + alloc.len,
                        by as int,
                        s.recs[j].addr as int,
                        s.recs[j].len as int,
                    ));
                } else if j == idx {
                    assert(s2.recs[k] == s.recs[k]);
                    assert(!ranges_overlap(
                        alloc.addr as int,
                        alloc.len as int,
                        s.recs[k].addr as int,
                        s.recs[k].len as int,
                    ));
                    assert(!ranges_overlap(
                        alloc.addr + alloc.len,
                        by as int,
                        s.recs[k].addr as int,
                        s.recs[k].len as int,
                    ));
                }
            }
            assert(wf(s2));
        }
        Ok(())
    }

    /// Allocates memory: rejects a malformed request, searches the
    /// candidate mappings downward from their tops for the highest
    /// address satisfying the alignment and the overlap checks, and
    /// records the chosen range in the allocation table. Every address
    /// this returns is a multiple of the requested alignment. Fails,
    /// changing nothing, when no address fits ([`FREE_MEMORY_UNAVAILABLE`])
    /// or the table cannot grow to hold the record
    /// ([`TOO_MANY_ALLOCATIONS`]) — callers must treat the latter like a
    /// true out-of-memory condition.
    pub fn allocate(&mut self, size: u64, align: usize) -> (r: Result<u64, Error<'static>>)
        requires
            old(self).inv(),
        ensures
            final(self).inv(),
            final(self)@.maps == old(self)@.maps,
            match spec_allocate(old(self)@, size, align) {
                Ok(sa) => r matches Ok(a) && a == sa.1 && final(self)@ == sa.0,
                Err(code) => r matches Err(e) && e.spec_code() == code && final(self)@ == old(self)@,
            },
            r matches Ok(a) ==> align >= 1 && a as int % align as int == 0 && size >= 1 && !blocked(
                old(self)@,
                a as int,
                size as int,
            ),
    {
        if size == 0 || align == 0 {
            return Err(Error::new("zero size or zero alignment", INVALID_CONSTRAINT));
        }
        let found = self.find_free_block(size, align);
        match found {
            None => Err(Error::new("no suitable memory block found", FREE_MEMORY_UNAVAILABLE)),
            Some(addr) => {
                proof {
                    lemma_find_props(self@, self@.maps, size as int, align as int);
                    let m = choose|i: int|
                        0 <= i < self@.maps.len() && spec_allocatable(
                            #[trigger] self@.maps[i].mem_type,
                        ) && self@.maps[i].start <= addr as int && addr + size
                            <= self@.maps[i].start + self@.maps[i].len;
                    assert(self@.maps[m].start + self@.maps[m].len + ALLOCATION_HEADER_SIZE
                        <= u64::MAX);
                }
                match self.track_allocation(addr, size) {
                    Ok(_) => Ok(addr),
                    Err(err) => Err(err),
                }
            },
        }
    }

    /// Merge adjacent free blocks to reduce fragmentation: one forward
    /// pass over the table slots in table order, absorbing as
    /// [`spec_merge`] says.
    fn merge_free_blocks(&mut self)
        requires
            old(self).inv(),
        ensures
            final(self).inv(),
            final(self)@ == (AllocState { recs: spec_merge(old(self)@.recs, 0), ..old(self)@ }),
    {
        let ghost s0 = self@;
        let mut i: usize = 0;
        while i < self.allocations.len()
            invariant
                self.inv(),
                s0 == old(self)@,
                s0 == (AllocState { recs: s0.recs, ..self@ }),
                s0.recs.len() == self@.recs.len(),
                i <= self@.recs.len(),
                spec_merge(self@.recs, i as int) == spec_merge(s0.recs, 0),
            decreases self@.recs.len() - i,
        {
            let ghost entry = self@.recs;
            let cur0 = self.allocations[i];
            if !cur0.used && cur0.len > 0 {
                let mut j: usize = i + 1;
                while j < self.allocations.len() && !self.allocations[j].used
                    invariant
                        self.inv(),
                        s0 == (AllocState { recs: s0.recs, ..self@ }),
                        s0.recs.len() == self@.recs.len(),
                        i < j <= self@.recs.len(),
                        i < self@.recs.len(),
                        !self@.recs[i as int].used,
                        self@.recs[i as int].len > 0,
                        spec_absorb(entry, i as int, i + 1) == spec_absorb(
                            self@.recs,
                            i as int,
                            j as int,
                        ),
                    decreases self@.recs.len() - j,
                {
                    let cur = self.allocations[i];
                    let nxt = self.allocations[j];
                    let ghost before = self@.recs;
                    if nxt.len > 0 && cur.addr + cur.len == nxt.addr {
                        self.allocations[i] =
                        Allocation { used: false, addr: cur.addr, len: cur.len + nxt.len };
                        self.allocations[j] = Allocation { used: false, addr: 0, len: 0 };
                        proof {
                            assert(self@.recs =~= before.update(
                                i as int,
                                Allocation {
                                    used: false,
                                    addr: before[i as int].addr,
                                    len: (before[i as int].len + before[j as int].len) as u64,
                                },
                            ).update(j as int, empty_rec()));
                            assert(spec_absorb(before, i as int, j as int) == spec_absorb(
                                self@.recs,
                                i as int,
                                j + 1,
                            ));
                            assert forall|k: int|
                                0 <= k < self@.recs.len() && (#[trigger] self@.recs[k]).used implies
                                self@.recs[k] == before[k] by {}
                            assert(wf(self@));
                        }
                    } else {
                        proof {
                            assert(spec_absorb(before, i as int, j as int) == spec_absorb(
                                before,
                                i as int,
                                j + 1,
                            ));
                        }
                    }
                    j = j + 1;
                }
                proof {
                    assert(spec_absorb(self@.recs, i as int, j as int) == self@.recs);
                    assert(spec_merge(entry, i as int) == spec_merge(self@.recs, i + 1));
                }
            } else {
                proof {
                    assert(spec_merge(self@.recs, i as int) == spec_merge(self@.recs, i + 1));
                }
            }
            i = i + 1;
        }
    }

    /// Merge contiguous free memory blocks to reduce fragmentation.
    /// This should be called periodically to keep memory efficient.
    pub fn merge_contiguous_allocations(&mut self)
        requires
            old(self).inv(),
        ensures
            final(self).inv(),
            final(self)@ == (AllocState { recs: spec_merge(old(self)@.recs, 0), ..old(self)@ }),
    {
        self.merge_free_blocks();
    }

    /// Deallocates memory: scans the table for a used record whose
    /// address matches exactly, tombstones it, and runs a coalescing
    /// pass. The passed size is informational only — the tracked
    /// record's length is authoritative, so a caller passing a
    /// mismatched size will not be caught. Fails, changing nothing, when
    /// no used record has the given address.
    pub fn deallocate(&mut self, addr: u64, size: u64) -> (r: Result<(), Error<'static>>)
        requires
            old(self).inv(),
        ensures
            final(self).inv(),
            final(self)@.maps == old(self)@.maps,
            match spec_dealloc(old(self)@, addr) {
                Some(s2) => r is Ok && final(self)@ == s2,
                None => r matches Err(e) && e.spec_code() == MEMORY_NOT_ALLOCATED && final(self)@
                    == old(self)@,
            },
    {
        let _ = size;
        let ghost s = self@;
        let mut i: usize = 0;
        while i < self.allocations.len()
            invariant
                self.inv(),
                s == self@,
                s == old(self)@,
                i <= s.recs.len(),
                spec_find_used_addr(s.recs, 0, addr) == spec_find_used_addr(s.recs, i as int, addr),
            decreases s.recs.len() - i,
        {
            let alloc = self.allocations[i];
            if alloc.used && alloc.addr == addr {
                proof {
                    assert(spec_find_used_addr(s.recs, i as int, addr) == Some(i as int));
                }
                self.allocations[i] =
                Allocation { used: false, addr: alloc.addr, len: alloc.len };
                proof {
                    assert(self@.recs =~= s.recs.update(
                        i as int,
                        Allocation { used: false, ..s.recs[i as int] },
                    ));
                    assert forall|k: int|
                        0 <= k < self@.recs.len() && (#[trigger] self@.recs[k]).used implies
                        self@.recs[k] == s.recs[k] by {}
                    assert(wf(self@));
                }
                self.merge_free_blocks();
                return Ok(());
            }
            i = i + 1;
        }
        Err(Error::new("memory not allocated", MEMORY_NOT_ALLOCATED))
    }

    /// Try to find space from the end of one mapping, walking downward
    /// in steps of the requested size.
    fn search_mapping(&self, mapping: &MemoryMapping, size: u64, align: usize) -> (r: Option<u64>)
        requires
            self.inv(),
            size >= 1,
            align >= 1,
            size <= mapping.len,
            mapping.start + mapping.len <= u64::MAX,
        ensures
            (match r {
                Some(a) => Some(a as int),
                None => None::<int>,
            }) == spec_search_down(
                self@,
                mapping.start as int,
                mapping.start + mapping.len - size,
                size as int,
                align as int,
            ),
    {
        let ghost s = self@;
        let lo = mapping.start;
        let ghost top = mapping.start + mapping.len - size as int;
        let mut addr: u64 = mapping.start + (mapping.len - size);
        loop
            invariant
                self.inv(),
                s == self@,
                size >= 1,
                align >= 1,
                lo == mapping.start,
                top == mapping.start + mapping.len - size,
                lo <= addr <= top,
                addr + size <= u64::MAX,
                spec_search_down(s, lo as int, top, size as int, align as int)
                    == spec_search_down(s, lo as int, addr as int, size as int, align as int),
            decreases addr,
        {
            let aligned = addr % (align as u64) == 0;
            if aligned && !self.check_range(addr, size) {
                proof {
                    assert((addr as int) % (align as int) == 0);
                    assert(spec_search_down(s, lo as int, addr as int, size as int, align as int)
                        == Some(addr as int));
                }
                return Some(addr);
            }
            proof {
                assert(!((addr as int) % (align as int) == 0 && !blocked(
                    s,
                    addr as int,
                    size as int,
                )));
                assert(spec_search_down(s, lo as int, addr as int, size as int, align as int) == (
                if addr - size < lo {
                    None::<int>
                } else {
                    spec_search_down(s, lo as int, addr - size, size as int, align as int)
                }));
            }
            if addr - lo < size {
                return None;
            }
            addr = addr - size;
        }
    }
}

/// The seam the allocator is installed behind so that generic code can
/// use it without being aware of it: maybe an allocator, plus the last
/// status of memory allocation or deallocation. The untyped entry points
/// ([`MaybeMemoryMapAlloc::alloc`], [`MaybeMemoryMapAlloc::dealloc`])
/// carry no failure detail, so every operation stashes its outcome here
/// for [`MaybeMemoryMapAlloc::last_error`] to hand back. The typed
/// interface of [`MemoryMapAlloc`] is the primary API; this wrapper is a
/// thin, deliberately lossy adapter over it.
pub struct MaybeMemoryMapAlloc {
    allocator: Option<MemoryMapAlloc>,
    initalized: bool,
    last_memmap_err: Option<Error<'static>>,
}

impl MaybeMemoryMapAlloc {
    /// Whether an allocator has been installed, in spec position.
    pub closed spec fn spec_initalized(&self) -> bool {
        self.initalized
    }

    /// The installed allocator, in spec position.
    pub closed spec fn spec_alloc(&self) -> Option<MemoryMapAlloc> {
        self.allocator
    }

    /// The stashed outcome of the last operation, in spec position.
    pub closed spec fn spec_last_err(&self) -> Option<Error<'static>> {
        self.last_memmap_err
    }

    /// The wrapper's invariant: the flag agrees with the slot, and an
    /// installed allocator is well-formed.
    pub open spec fn inv(&self) -> bool {
        &&& self.spec_initalized() <==> self.spec_alloc() is Some
        &&& self.spec_alloc() matches Some(a) ==> a.inv()
    }

    /// Creates the seam, installed or empty.
    pub fn new(alloc: Option<MemoryMapAlloc>) -> (r: Self)
        requires
            alloc matches Some(a) ==> a.inv(),
        ensures
            r.inv(),
            r.spec_initalized() == (alloc is Some),
            r.spec_alloc() == alloc,
            r.spec_last_err() is None,
    {
        match alloc {
            None => MaybeMemoryMapAlloc { allocator: None, initalized: false, last_memmap_err: None },
            Some(a) => MaybeMemoryMapAlloc {
                allocator: Some(a),
                initalized: true,
                last_memmap_err: None,
            },
        }
    }

    /// Installs an allocator. Note that if the allocator is already
    /// initalized then this will do nothing.
    pub fn add_alloc(&mut self, alloc: MemoryMapAlloc)
        requires
            old(self).inv(),
            alloc.inv(),
        ensures
            final(self).inv(),
            old(self).spec_initalized() ==> *final(self) == *old(self),
            !old(self).spec_initalized() ==> final(self).spec_initalized() && final(self).spec_alloc() == Some(alloc) && final(self).spec_last_err() == old(self).spec_last_err(),
    {
        if self.initalized {
            return ;
        }
        self.allocator = Some(alloc);
        self.initalized = true;
    }

    /// The most recent failure's detail, since the untyped entry points
    /// return a bare success signal with no payload; `None` after a
    /// successful operation.
    pub fn last_error(&self) -> (r: Option<Error<'static>>)
        ensures
            r == self.spec_last_err(),
    {
        self.last_memmap_err
    }

    /// The typed allocate of the installed allocator, stashing the
    /// outcome in the diagnostic slot.
    pub fn allocate(&mut self, size: u64, align: usize) -> (r: Result<u64, Error<'static>>)
        requires
            old(self).inv(),
        ensures
            final(self).inv(),
            final(self).spec_initalized() == old(self).spec_initalized(),
            !old(self).spec_initalized() ==> {
                &&& r matches Err(e) && e.spec_code() == MAYBE_MEMORY_MAP_ALLOC_UNINITALIZED
                &&& final(self).spec_alloc() == old(self).spec_alloc()
                &&& final(self).spec_last_err() matches Some(le) && le.spec_code()
                    == MAYBE_MEMORY_MAP_ALLOC_UNINITALIZED
            },
            old(self).spec_initalized() ==> {
                &&& old(self).spec_alloc() matches Some(ia)
                &&& final(self).spec_alloc() matches Some(fa)
                &&& match spec_allocate(ia@, size, align) {
                    Ok(sa) => r matches Ok(a) && a == sa.1 && fa@ == sa.0 && final(self).spec_last_err() is None,
                    Err(code) => r matches Err(e) && e.spec_code() == code && fa@ == ia@ && (final(self).spec_last_err() matches Some(le) && le.spec_code() == code),
                }
            },
    {
        if let Some(a) = &mut self.allocator {
            let r = a.allocate(size, align);
            match r {
                Ok(v) => {
                    self.last_memmap_err = None;
                    Ok(v)
                },
                Err(e) => {
                    self.last_memmap_err = Some(e);
                    Err(e)
                },
            }
        } else {
            let e = Error::new(
                "MaybeMemoryMapAlloc not initalized",
                MAYBE_MEMORY_MAP_ALLOC_UNINITALIZED,
            );
            self.last_memmap_err = Some(e);
            Err(e)
        }
    }

    /// The typed deallocate of the installed allocator, stashing the
    /// outcome in the diagnostic slot.
    pub fn deallocate(&mut self, addr: u64, size: u64) -> (r: Result<(), Error<'static>>)
        requires
            old(self).inv(),
        ensures
            final(self).inv(),
            final(self).spec_initalized() == old(self).spec_initalized(),
            !old(self).spec_initalized() ==> {
                &&& r matches Err(e) && e.spec_code() == MAYBE_MEMORY_MAP_ALLOC_UNINITALIZED
                &&& final(self).spec_alloc() == old(self).spec_alloc()
                &&& final(self).spec_last_err() matches Some(le) && le.spec_code()
                    == MAYBE_MEMORY_MAP_ALLOC_UNINITALIZED
            },
            old(self).spec_initalized() ==> {
                &&& old(self).spec_alloc() matches Some(ia)
                &&& final(self).spec_alloc() matches Some(fa)
                &&& match spec_dealloc(ia@, addr) {
                    Some(s2) => r is Ok && fa@ == s2 && final(self).spec_last_err() is None,
                    None => r matches Err(e) && e.spec_code() == MEMORY_NOT_ALLOCATED && fa@ == ia@
                        && (final(self).spec_last_err() matches Some(le) && le.spec_code()
                        == MEMORY_NOT_ALLOCATED),
                }
            },
    {
        if let Some(a) = &mut self.allocator {
            let r = a.deallocate(addr, size);
            match r {
                Ok(_) => {
                    self.last_memmap_err = None;
                    Ok(())
                },
                Err(e) => {
                    self.last_memmap_err = Some(e);
                    Err(e)
                },
            }
        } else {
            let e = Error::new(
                "MaybeMemoryMapAlloc not initalized",
                MAYBE_MEMORY_MAP_ALLOC_UNINITALIZED,
            );
            self.last_memmap_err = Some(e);
            Err(e)
        }
    }

    /// The untyped allocate: a bare address or nothing. The failure kind
    /// goes to the diagnostic slot.
    pub fn alloc_untyped(&mut self, size: u64, align: usize) -> (r: Option<u64>)
        requires
            old(self).inv(),
        ensures
            final(self).inv(),
            final(self).spec_initalized() == old(self).spec_initalized(),
            old(self).spec_initalized() ==> {
                &&& old(self).spec_alloc() matches Some(ia)
                &&& final(self).spec_alloc() matches Some(fa)
                &&& match spec_allocate(ia@, size, align) {
                    Ok(sa) => r == Some(sa.1) && fa@ == sa.0 && final(self).spec_last_err() is None,
                    Err(code) => r is None && fa@ == ia@ && (final(self).spec_last_err() matches Some(le) && le.spec_code() == code),
                }
            },
            !old(self).spec_initalized() ==> r is None && final(self).spec_alloc() == old(self).spec_alloc(),
    {
        match self.allocate(size, align) {
            Ok(v) => Some(v),
            Err(_) => None,
        }
    }

    /// The untyped deallocate: success or failure alone. The failure
    /// kind goes to the diagnostic slot.
    pub fn dealloc_untyped(&mut self, addr: u64, size: u64) -> (r: bool)
        requires
            old(self).inv(),
        ensures
            final(self).inv(),
            final(self).spec_initalized() == old(self).spec_initalized(),
            old(self).spec_initalized() ==> {
                &&& old(self).spec_alloc() matches Some(ia)
                &&& final(self).spec_alloc() matches Some(fa)
                &&& match spec_dealloc(ia@, addr) {
                    Some(s2) => r && fa@ == s2 && final(self).spec_last_err() is None,
                    None => !r && fa@ == ia@ && (final(self).spec_last_err() matches Some(le)
                        && le.spec_code() == MEMORY_NOT_ALLOCATED),
                }
            },
            !old(self).spec_initalized() ==> !r && final(self).spec_alloc() == old(self).spec_alloc(),
    {
        match self.deallocate(addr, size) {
            Ok(_) => true,
            Err(_) => false,
        }
    }
}

// ---------------------------------------------------------------------
// What the allocator guarantees, stated on its own: laws over the
// mathematical state that the operations' contracts name.
// ---------------------------------------------------------------------

/// No-overlap invariant: in a well-formed allocator state, the ranges of
/// two distinct used allocation records never intersect, and no used
/// record's range intersects the allocation table's own backing range.
/// Every operation of [`MemoryMapAlloc`] ensures its state stays
/// well-formed, so this holds after any sequence of them.
pub proof fn lemma_no_overlap(s: AllocState, i: int, j: int)
    requires
        wf(s),
        0 <= i < s.recs.len(),
        0 <= j < s.recs.len(),
        i != j,
        s.recs[i].used,
        s.recs[j].used,
    ensures
        !ranges_overlap(
            s.recs[i].addr as int,
            s.recs[i].len as int,
            s.recs[j].addr as int,
            s.recs[j].len as int,
        ),
        !ranges_overlap(
            s.recs[i].addr as int,
            s.recs[i].len as int,
            table_start(s),
            ALLOCATION_HEADER_SIZE + s.backing,
        ),
{
}

/// An absorb scan touches only free slots: no slot's used flag changes,
/// and no used record changes.
proof fn lemma_absorb_used(recs: Seq<Allocation>, i: int, j: int)
    requires
        0 <= i < j,
        !recs[i].used,
    ensures
        spec_absorb(recs, i, j).len() == recs.len(),
        forall|k: int|
            0 <= k < recs.len() ==> (#[trigger] spec_absorb(recs, i, j)[k]).used == recs[k].used,
        forall|k: int|
            0 <= k < recs.len() && (#[trigger] recs[k]).used ==> spec_absorb(recs, i, j)[k]
                == recs[k],
        !spec_absorb(recs, i, j)[i].used,
    decreases recs.len() - j,
{
    if j >= recs.len() {
    } else if recs[j].used {
    } else if recs[j].len > 0 && recs[i].addr + recs[i].len == recs[j].addr {
        lemma_absorb_used(
            recs.update(
                i,
                Allocation {
                    used: false,
                    addr: recs[i].addr,
                    len: (recs[i].len + recs[j].len) as u64,
                },
            ).update(j, empty_rec()),
            i,
            j + 1,
        );
    } else {
        lemma_absorb_used(recs, i, j + 1);
    }
}

/// A coalescing pass touches only free slots: no slot's used flag
/// changes, and no used record changes.
pub proof fn lemma_merge_used(recs: Seq<Allocation>, i: int)
    requires
        0 <= i,
    ensures
        spec_merge(recs, i).len() == recs.len(),
        forall|k: int|
            0 <= k < recs.len() ==> (#[trigger] spec_merge(recs, i)[k]).used == recs[k].used,
        forall|k: int|
            0 <= k < recs.len() && (#[trigger] recs[k]).used ==> spec_merge(recs, i)[k] == recs[k],
    decreases recs.len() - i,
{
    if i >= recs.len() {
    } else if !recs[i].used && recs[i].len > 0 {
        lemma_absorb_used(recs, i, i + 1);
        lemma_merge_used(spec_absorb(recs, i, i + 1), i + 1);
    } else {
        lemma_merge_used(recs, i + 1);
    }
}

/// The number of bytes currently handed out: the sum of the lengths of
/// the used records.
pub open spec fn used_bytes(recs: Seq<Allocation>) -> nat
    decreases recs.len(),
{
    if recs.len() == 0 {
        0
    } else {
        used_bytes(recs.drop_last()) + if recs.last().used {
            recs.last().len as nat
        } else {
            0
        }
    }
}

/// Two tables whose used slots agree hand out the same number of bytes.
proof fn lemma_used_bytes_pointwise(a: Seq<Allocation>, b: Seq<Allocation>)
    requires
        a.len() == b.len(),
        forall|k: int|
            0 <= k < a.len() ==> ((#[trigger] a[k]).used == b[k].used && (a[k].used ==> a[k]
                == b[k])),
    ensures
        used_bytes(a) == used_bytes(b),
    decreases a.len(),
{
    if a.len() > 0 {
        assert(a.drop_last().len() == b.drop_last().len());
        assert(forall|k: int|
            0 <= k < a.drop_last().len() ==> ((#[trigger] a.drop_last()[k]).used
                == b.drop_last()[k].used && (a.drop_last()[k].used ==> a.drop_last()[k]
                == b.drop_last()[k])));
        lemma_used_bytes_pointwise(a.drop_last(), b.drop_last());
    }
}

/// A tombstone appended to the table hands out nothing.
proof fn lemma_used_bytes_push_free(a: Seq<Allocation>, r: Allocation)
    requires
        !r.used,
    ensures
        used_bytes(a.push(r)) == used_bytes(a),
{
    assert(a.push(r).drop_last() =~= a);
}

/// Whether a table slot still carries information: a used record, or a
/// free record that still names a range (not an empty tombstone).
pub open spec fn slot_live(r: Allocation) -> bool {
    r.used || r.len > 0
}

/// How many slots of the table still carry information.
pub open spec fn live_slots(recs: Seq<Allocation>) -> nat
    decreases recs.len(),
{
    if recs.len() == 0 {
        0
    } else {
        live_slots(recs.drop_last()) + if slot_live(recs.last()) {
            1nat
        } else {
            0
        }
    }
}

/// Emptying one live slot, leaving the others as live as they were,
/// strictly lowers the live-slot count.
proof fn lemma_live_slots_drop(a: Seq<Allocation>, b: Seq<Allocation>, t: int)
    requires
        a.len() == b.len(),
        0 <= t < a.len(),
        slot_live(a[t]),
        !slot_live(b[t]),
        forall|k: int| 0 <= k < a.len() && k != t ==> slot_live(#[trigger] a[k]) == slot_live(b[k]),
    ensures
        live_slots(b) < live_slots(a),
    decreases a.len(),
{
    if t == a.len() - 1 {
        lemma_live_slots_same(a.drop_last(), b.drop_last());
    } else {
        lemma_live_slots_drop(a.drop_last(), b.drop_last(), t);
    }
}

/// Tables whose slots are equally live have the same live-slot count.
proof fn lemma_live_slots_same(a: Seq<Allocation>, b: Seq<Allocation>)
    requires
        a.len() == b.len(),
        forall|k: int| 0 <= k < a.len() ==> slot_live(#[trigger] a[k]) == slot_live(b[k]),
    ensures
        live_slots(b) == live_slots(a),
    decreases a.len(),
{
    if a.len() > 0 {
        lemma_live_slots_same(a.drop_last(), b.drop_last());
    }
}

/// A coalescing pass is the identity from a slot past which every slot
/// is used or already empty.
proof fn lemma_merge_identity(recs: Seq<Allocation>, i: int)
    requires
        0 <= i,
        forall|t: int| i <= t < recs.len() ==> ((#[trigger] recs[t]).used || recs[t].len == 0),
    ensures
        spec_merge(recs, i) == recs,
    decreases recs.len() - i,
{
    if i < recs.len() {
        lemma_merge_identity(recs, i + 1);
    }
}

/// A coalescing pass skips used and empty slots.
proof fn lemma_merge_skip(recs: Seq<Allocation>, i: int, m: int)
    requires
        0 <= i <= m <= recs.len(),
        forall|t: int| i <= t < m ==> ((#[trigger] recs[t]).used || recs[t].len == 0),
    ensures
        spec_merge(recs, i) == spec_merge(recs, m),
    decreases m - i,
{
    if i < m {
        lemma_merge_skip(recs, i + 1, m);
    }
}

/// Coalescing reduces the record count: when exactly two slots of the
/// table are free, adjacent in table order, and contiguous in addresses
/// (the first range ends exactly where the second starts), one pass
/// merges them. The merged record's length is the sum of the two
/// original lengths, the absorbed slot is left an empty tombstone, every
/// other slot is untouched, and the number of live slots is strictly
/// smaller than before.
pub proof fn lemma_coalescing(recs: Seq<Allocation>, k: int)
    requires
        0 <= k,
        k + 1 < recs.len(),
        !recs[k].used,
        recs[k].len > 0,
        !recs[k + 1].used,
        recs[k + 1].len > 0,
        recs[k].addr + recs[k].len == recs[k + 1].addr,
        recs[k + 1].addr + recs[k + 1].len <= u64::MAX,
        forall|t: int| 0 <= t < recs.len() && t != k && t != k + 1 ==> (#[trigger] recs[t]).used,
    ensures
        ({
            let out = spec_merge(recs, 0);
            &&& out.len() == recs.len()
            &&& !out[k].used
            &&& out[k].addr == recs[k].addr
            &&& out[k].len == recs[k].len + recs[k + 1].len
            &&& out[k + 1] == empty_rec()
            &&& forall|t: int|
                0 <= t < recs.len() && t != k && t != k + 1 ==> #[trigger] out[t] == recs[t]
            &&& live_slots(out) < live_slots(recs)
        }),
{
    let merged = Allocation {
        used: false,
        addr: recs[k].addr,
        len: (recs[k].len + recs[k + 1].len) as u64,
    };
    let recs1 = recs.update(k, merged).update(k + 1, empty_rec());
    lemma_merge_skip(recs, 0, k);
    assert(spec_merge(recs, k) == spec_merge(spec_absorb(recs, k, k + 1), k + 1));
    assert(spec_absorb(recs, k, k + 1) == spec_absorb(recs1, k, k + 2));
    assert(spec_absorb(recs1, k, k + 2) == recs1) by {
        if k + 2 < recs1.len() {
            assert(recs1[k + 2].used);
        }
    }
    assert(forall|t: int|
        k + 1 <= t < recs1.len() ==> ((#[trigger] recs1[t]).used || recs1[t].len == 0));
    lemma_merge_identity(recs1, k + 1);
    assert(spec_merge(recs, 0) == recs1);
    assert(forall|t: int|
        0 <= t < recs.len() && t != k && t != k + 1 ==> #[trigger] recs1[t] == recs[t]);
    lemma_live_slots_drop(recs, recs1, k + 1);
}

/// `b` blocks at least wherever `a` does: the table starts at the same
/// address and has not shrunk, and every used record of `a` stands
/// unchanged in the same slot of `b`.
pub open spec fn covers(a: AllocState, b: AllocState) -> bool {
    &&& table_start(b) == table_start(a)
    &&& b.backing >= a.backing
    &&& a.recs.len() <= b.recs.len()
    &&& forall|k: int|
        0 <= k < a.recs.len() && (#[trigger] a.recs[k]).used ==> b.recs[k] == a.recs[k]
}

proof fn lemma_blocked_covers(a: AllocState, b: AllocState, x: int, l: int)
    requires
        covers(a, b),
        blocked(a, x, l),
    ensures
        blocked(b, x, l),
{
    if ranges_overlap(x, l, table_start(a), ALLOCATION_HEADER_SIZE + a.backing) {
        assert(ranges_overlap(x, l, table_start(b), ALLOCATION_HEADER_SIZE + b.backing));
    } else {
        let i = choose|i: int|
            0 <= i < a.recs.len() && a.recs[i].used && ranges_overlap(
                x,
                l,
                a.recs[i].addr as int,
                a.recs[i].len as int,
            );
        assert(b.recs[i].used && ranges_overlap(
            x,
            l,
            b.recs[i].addr as int,
            b.recs[i].len as int,
        ));
    }
}

/// The downward search is stable under more blocking, as long as the
/// address it found stays clear: whatever it rejected stays rejected,
/// and what it accepted is still acceptable.
proof fn lemma_search_covers(
    a: AllocState,
    b: AllocState,
    lo: int,
    top: int,
    size: int,
    align: int,
)
    requires
        size >= 1,
        align >= 1,
        covers(a, b),
        (spec_search_down(a, lo, top, size, align) matches Some(ad) ==> !blocked(b, ad, size)),
    ensures
        spec_search_down(b, lo, top, size, align) == spec_search_down(a, lo, top, size, align),
    decreases top - lo,
{
    if top < lo {
    } else if top % align == 0 && !blocked(a, top, size) {
    } else {
        if blocked(a, top, size) {
            lemma_blocked_covers(a, b, top, size);
        }
        if top - size >= lo {
            lemma_search_covers(a, b, lo, top - size, size, align);
        }
    }
}

/// The whole search is stable under more blocking, as long as the
/// address it found stays clear.
proof fn lemma_find_covers(
    a: AllocState,
    b: AllocState,
    maps: Seq<MemoryMapping>,
    size: int,
    align: int,
)
    requires
        size >= 1,
        align >= 1,
        covers(a, b),
        (spec_find(a, maps, size, align) matches Some(ad) ==> !blocked(b, ad, size)),
    ensures
        spec_find(b, maps, size, align) == spec_find(a, maps, size, align),
    decreases maps.len(),
{
    if maps.len() == 0 {
    } else {
        let m = maps[0];
        if spec_allocatable(m.mem_type) && m.len >= size {
            lemma_search_covers(a, b, m.start as int, m.start + m.len - size, size, align);
            if spec_search_down(a, m.start as int, m.start + m.len - size, size, align) is None {
                lemma_find_covers(a, b, maps.skip(1), size, align);
            }
        } else {
            lemma_find_covers(a, b, maps.skip(1), size, align);
        }
    }
}

proof fn lemma_find_used_addr_from(recs: Seq<Allocation>, i: int, idx: int, addr: u64)
    requires
        0 <= i <= idx < recs.len(),
        recs[idx].used,
        recs[idx].addr == addr,
        forall|t: int| i <= t < idx ==> !((#[trigger] recs[t]).used && recs[t].addr == addr),
    ensures
        spec_find_used_addr(recs, i, addr) == Some(idx),
    decreases idx - i,
{
    if i < idx {
        lemma_find_used_addr_from(recs, i + 1, idx, addr);
    }
}

proof fn lemma_first_free_some(recs: Seq<Allocation>, i: int, k: int)
    requires
        0 <= i <= k < recs.len(),
        !recs[k].used,
    ensures
        spec_first_free_slot(recs, i) is Some,
    decreases k - i,
{
    if recs[i].used {
        lemma_first_free_some(recs, i + 1, k);
    }
}

proof fn lemma_first_free_props(recs: Seq<Allocation>, i: int)
    requires
        0 <= i,
        spec_first_free_slot(recs, i) is Some,
    ensures
        ({
            let f = spec_first_free_slot(recs, i).unwrap();
            &&& i <= f < recs.len()
            &&& !recs[f].used
        }),
    decreases recs.len() - i,
{
    if i < recs.len() && recs[i].used {
        lemma_first_free_props(recs, i + 1);
    }
}

/// Round-trip: allocating a block and immediately releasing the returned
/// address leaves the number of handed-out bytes exactly as it was, and
/// a second request with the same size and alignment must succeed and
/// return the same address — the descending search finds the freed range
/// again, and the freed slot is there to record it.
pub proof fn lemma_round_trip(s: AllocState, size: u64, align: usize)
    requires
        wf(s),
        spec_allocate(s, size, align) is Ok,
    ensures
        ({
            let (s1, a) = spec_allocate(s, size, align).unwrap();
            &&& wf(s1)
            &&& spec_dealloc(s1, a) is Some
            &&& used_bytes(spec_dealloc(s1, a).unwrap().recs) == used_bytes(s.recs)
            &&& spec_allocate(spec_dealloc(s1, a).unwrap(), size, align) is Ok
            &&& spec_allocate(spec_dealloc(s1, a).unwrap(), size, align).unwrap().1 == a
        }),
{
    let ad = spec_find(s, s.maps, size as int, align as int).unwrap();
    lemma_find_props(s, s.maps, size as int, align as int);
    let mi = choose|i: int|
        0 <= i < s.maps.len() && spec_allocatable(#[trigger] s.maps[i].mem_type)
            && s.maps[i].start <= ad && ad + size <= s.maps[i].start + s.maps[i].len;
    assert(s.maps[mi].start + s.maps[mi].len + ALLOCATION_HEADER_SIZE <= u64::MAX);
    assert(0 <= ad && ad + size <= u64::MAX);
    let a = ad as u64;
    let rec = Allocation { used: true, addr: a, len: size };
    let s1 = spec_track(s, a, size).unwrap();
    let ff = spec_first_free_slot(s.recs, 0);
    let idx = if ff is Some {
        ff.unwrap()
    } else {
        s.recs.len() as int
    };
    if ff is Some {
        lemma_first_free_props(s.recs, 0);
        lemma_track_slot_wf(s, s1, idx, rec);
        assert(s1.recs == s.recs.update(idx, rec));
    } else if (s.recs.len() + 1) * ALLOCATION_SIZE <= s.backing {
        lemma_track_slot_wf(s, s1, idx, rec);
        assert(s1.recs == s.recs.push(rec));
    } else {
        lemma_track_grow_wf(s, s1, rec);
        assert(s1.recs == s.recs.push(rec));
    }
    assert(wf(s1));
    assert(s1.recs[idx] == rec);
    assert(s1.recs.len() <= s.recs.len() + 1);
    assert(forall|t: int|
        0 <= t < s1.recs.len() && t != idx ==> #[trigger] s1.recs[t] == s.recs[t]);

    // No used record of the starting state carries the returned address:
    // its range would intersect the returned range.
    assert forall|t: int|
        0 <= t < s.recs.len() && (#[trigger] s.recs[t]).used implies s.recs[t].addr != a by {
        if s.recs[t].addr == a {
            assert(ranges_overlap(ad, size as int, s.recs[t].addr as int, s.recs[t].len as int));
            assert(blocked(s, ad, size as int));
        }
    }

    lemma_find_used_addr_from(s1.recs, 0, idx, a);
    let freed = Allocation { used: false, ..rec };
    let s1u = s1.recs.update(idx, freed);
    let s2 = spec_dealloc(s1, a).unwrap();
    assert(s2.recs == spec_merge(s1u, 0));
    lemma_merge_used(s1u, 0);

    // The handed-out bytes are exactly what they were.
    lemma_used_bytes_pointwise(s2.recs, s1u);
    if ff is Some {
        lemma_used_bytes_pointwise(s1u, s.recs);
    } else {
        assert(s1u =~= s.recs.push(freed));
        lemma_used_bytes_push_free(s.recs, freed);
    }
    assert(used_bytes(s2.recs) == used_bytes(s.recs));

    // The state after the round trip blocks at least wherever the
    // starting state did.
    assert forall|k: int|
        0 <= k < s.recs.len() && (#[trigger] s.recs[k]).used implies s2.recs[k] == s.recs[k] by {
        assert(k != idx);
        assert(s1u[k] == s.recs[k]);
    }
    assert(covers(s, s2));

    // The returned range is still clear afterwards: the used records are
    // the same, and table growth was checked against the new range.
    assert(!ranges_overlap(ad, size as int, table_start(s2), ALLOCATION_HEADER_SIZE + s2.backing))
        by {
        assert(!ranges_overlap(ad, size as int, table_start(s), ALLOCATION_HEADER_SIZE + s.backing));
        if s2.backing != s.backing {
            assert(!grow_blocked(s, rec));
            assert(!ranges_overlap(table_end(s), ALLOCATION_SIZE as int, ad, size as int));
        }
    }
    assert forall|t: int|
        0 <= t < s2.recs.len() && (#[trigger] s2.recs[t]).used implies !ranges_overlap(
        ad,
        size as int,
        s2.recs[t].addr as int,
        s2.recs[t].len as int,
    ) by {
        assert(s1u[t].used);
        assert(t != idx);
        assert(t < s1.recs.len());
        assert(s1.recs[t].used);
        assert(t < s.recs.len() && s.recs[t].used && s2.recs[t] == s.recs[t]);
        assert(!blocked(s, ad, size as int));
    }
    assert(!blocked(s2, ad, size as int));

    // The second search finds the same address.
    lemma_find_covers(s, s2, s.maps, size as int, align as int);
    assert(s2.maps == s.maps);
    assert(spec_find(s2, s2.maps, size as int, align as int) == Some(ad));

    // And the freed slot is there for the second record.
    assert(!s2.recs[idx].used);
    lemma_first_free_some(s2.recs, 0, idx);
    assert(spec_track(s2, a, size) is Some);
}

} // verus!
