//! General bootloader-independent stuff.

use vstd::prelude::*;
use vstd::string::StringSliceAdditionalSpecFns;

use crate::display::{COLOR_DEFAULT, TextDisplay, spec_write_bytes_pos, write_bytes};
use crate::errors::Error;
use crate::util::{dec_buf, u32_as_u8_slice, u64_as_u8_slice};

verus! {

/// A type of memory, for use in [`MemoryMapping`]s. The memory allocator
/// will ignore all memory except for memory with type [`MemoryType::Free`]
/// or [`MemoryType::HardwareSpecific`] memory with the boolean argument
/// set.
#[derive(Clone, Copy, PartialEq, Eq, Structural, Debug)]
pub enum MemoryType {
    /// Free RAM with no use.
    Free,
    /// RAM where the kernel is loaded.
    Kernel,
    /// Reserved by something.
    Reserved,
    /// Reserved by something on the hardware.
    HardwareReserved,
    /// Faulty RAM modules.
    Faulty,
    /// Unknown use.
    Unknown,
    /// Hardware-specific use. The boolean argument states whether memory
    /// can be allocated in this region.
    HardwareSpecific(u32, bool),
    /// Flash/semi-permanent memory. Generally used in embedded systems.
    Permanent,
}

/// Whether the allocator may place allocations in memory of this type:
/// only free memory and hardware-specific memory flagged allocatable.
pub open spec fn spec_allocatable(t: MemoryType) -> bool {
    ||| t == MemoryType::Free
    ||| (t matches MemoryType::HardwareSpecific(_, a) && a)
}

/// The description [`MemoryType::output`] writes for a memory type
/// without a payload; the hardware-specific variant writes its tag and
/// allocatability after this text.
pub open spec fn spec_mem_type_text(t: MemoryType) -> Seq<u8> {
    match t {
        MemoryType::Free => "Free".spec_bytes(),
        MemoryType::Kernel => "Kernel loaded".spec_bytes(),
        MemoryType::Reserved => "Reserved".spec_bytes(),
        MemoryType::HardwareReserved => "Hardware Reserved".spec_bytes(),
        MemoryType::Faulty => "Faulty RAM".spec_bytes(),
        MemoryType::Unknown => "Unknown".spec_bytes(),
        MemoryType::HardwareSpecific(_, _) => "Hardware specific ".spec_bytes(),
        MemoryType::Permanent => "Flash".spec_bytes(),
    }
}

/// The suffix [`MemoryType::output`] writes after a hardware-specific
/// tag.
pub open spec fn spec_allocatable_text(allocatable: bool) -> Seq<u8> {
    if allocatable {
        ", allocatable".spec_bytes()
    } else {
        ", unallocatable".spec_bytes()
    }
}

impl MemoryType {
    /// Whether the allocator may place allocations in memory of this type.
    pub fn allocatable(&self) -> (r: bool)
        ensures
            r == spec_allocatable(*self),
    {
        match self {
            MemoryType::Free => true,
            MemoryType::HardwareSpecific(_, a) => *a,
            _ => false,
        }
    }

    /// Writes the description of this memory type to a display from the
    /// given position, handing back where the cursor lands: its
    /// [`spec_mem_type_text`], and for hardware-specific memory the tag's
    /// decimal text and its [`spec_allocatable_text`]. The first failing
    /// write is handed back instead.
    pub fn output<T: TextDisplay>(&self, display: &T, pos: (u32, u32)) -> (r: Result<
        (u32, u32),
        Error<'static>,
    >)
        requires
            pos.0 <= display.spec_size().0,
            display.spec_size().0 >= 1,
            display.spec_size().0 < u32::MAX,
            pos.1 + 64 <= u32::MAX,
        ensures
            r matches Ok(p) ==> {
                let w = display.spec_size().0 as int;
                let p1 = spec_write_bytes_pos(
                    pos.0 as int,
                    pos.1 as int,
                    spec_mem_type_text(*self),
                    w,
                );
                (p.0 as int, p.1 as int) == (match *self {
                    MemoryType::HardwareSpecific(tag, a) => {
                        let p2 = spec_write_bytes_pos(p1.0, p1.1, dec_buf(tag as nat, 10), w);
                        spec_write_bytes_pos(p2.0, p2.1, spec_allocatable_text(a), w)
                    },
                    _ => p1,
                })
            },
    {
        let ghost w = display.spec_size().0 as int;
        let text = match self {
            MemoryType::Free => "Free",
            MemoryType::Kernel => "Kernel loaded",
            MemoryType::Reserved => "Reserved",
            MemoryType::HardwareReserved => "Hardware Reserved",
            MemoryType::Faulty => "Faulty RAM",
            MemoryType::Unknown => "Unknown",
            MemoryType::HardwareSpecific(_, _) => "Hardware specific ",
            MemoryType::Permanent => "Flash",
        };
        proof {
            assert(text.spec_bytes() == spec_mem_type_text(*self));
            assert(spec_mem_type_text(*self).len() <= 18) by {
                reveal_strlit("Free");
                reveal_strlit("Kernel loaded");
                reveal_strlit("Reserved");
                reveal_strlit("Hardware Reserved");
                reveal_strlit("Faulty RAM");
                reveal_strlit("Unknown");
                reveal_strlit("Hardware specific ");
                reveal_strlit("Flash");
                assert(vstd::string::is_ascii(text));
                vstd::string::is_ascii_spec_bytes(text);
            }
        }
        let p1 = write_bytes(display, pos, text.as_bytes(), COLOR_DEFAULT)?;
        proof {
            crate::display::lemma_write_bytes_pos_bound(
                pos.0 as int,
                pos.1 as int,
                text.spec_bytes(),
                w,
            );
        }
        if let MemoryType::HardwareSpecific(tag, a) = self {
            let digits = u32_as_u8_slice(*tag);
            let p2 = write_bytes(display, p1, digits.as_slice(), COLOR_DEFAULT)?;
            proof {
                crate::display::lemma_write_bytes_pos_bound(p1.0 as int, p1.1 as int, digits@, w);
            }
            let suffix = if *a {
                ", allocatable"
            } else {
                ", unallocatable"
            };
            proof {
                assert(suffix.spec_bytes() == spec_allocatable_text(*a));
                assert(spec_allocatable_text(*a).len() <= 15) by {
                    reveal_strlit(", allocatable");
                    reveal_strlit(", unallocatable");
                    assert(vstd::string::is_ascii(suffix));
                    vstd::string::is_ascii_spec_bytes(suffix);
                }
            }
            let p3 = write_bytes(display, p2, suffix.as_bytes(), COLOR_DEFAULT)?;
            Ok(p3)
        } else {
            Ok(p1)
        }
    }
}

/// A single memory mapping for [`MemoryMap`]: one classified, contiguous
/// physical address range reported by the firmware or bootloader.
#[derive(Clone, Copy, Debug)]
pub struct MemoryMapping {
    /// The type of the memory.
    pub mem_type: MemoryType,
    /// The beginning of the memory.
    pub start: u64,
    /// The length of the memory.
    pub len: u64,
}

impl MemoryMapping {
    /// Writes this mapping's description to a display from the given
    /// position, handing back where the cursor lands: a memory-type
    /// label, the type's own description, and the start and length as
    /// decimal text behind their labels. The first failing write is
    /// handed back instead.
    pub fn output<T: TextDisplay>(&self, display: &T, pos: (u32, u32)) -> (r: Result<
        (u32, u32),
        Error<'static>,
    >)
        requires
            pos.0 <= display.spec_size().0,
            display.spec_size().0 >= 1,
            display.spec_size().0 < u32::MAX,
            pos.1 + 256 <= u32::MAX,
        ensures
            r matches Ok(p) ==> {
                let w = display.spec_size().0 as int;
                let p1 = spec_write_bytes_pos(
                    pos.0 as int,
                    pos.1 as int,
                    "Memory type: ".spec_bytes(),
                    w,
                );
                let p2 = spec_write_bytes_pos(p1.0, p1.1, spec_mem_type_text(self.mem_type), w);
                let p3 = (match self.mem_type {
                    MemoryType::HardwareSpecific(tag, a) => {
                        let pa = spec_write_bytes_pos(p2.0, p2.1, dec_buf(tag as nat, 10), w);
                        spec_write_bytes_pos(pa.0, pa.1, spec_allocatable_text(a), w)
                    },
                    _ => p2,
                });
                let p4 = spec_write_bytes_pos(p3.0, p3.1, "; Start: ".spec_bytes(), w);
                let p5 = spec_write_bytes_pos(p4.0, p4.1, dec_buf(self.start as nat, 20), w);
                let p6 = spec_write_bytes_pos(p5.0, p5.1, "; Length: ".spec_bytes(), w);
                (p.0 as int, p.1 as int) == spec_write_bytes_pos(
                    p6.0,
                    p6.1,
                    dec_buf(self.len as nat, 20),
                    w,
                )
            },
    {
        let ghost w = display.spec_size().0 as int;
        proof {
            assert("Memory type: ".spec_bytes().len() <= 13 && "; Start: ".spec_bytes().len() <= 9
                && "; Length: ".spec_bytes().len() <= 10) by {
                reveal_strlit("Memory type: ");
                reveal_strlit("; Start: ");
                reveal_strlit("; Length: ");
                assert(vstd::string::is_ascii("Memory type: "));
                assert(vstd::string::is_ascii("; Start: "));
                assert(vstd::string::is_ascii("; Length: "));
                vstd::string::is_ascii_spec_bytes("Memory type: ");
                vstd::string::is_ascii_spec_bytes("; Start: ");
                vstd::string::is_ascii_spec_bytes("; Length: ");
            }
        }
        let label = "Memory type: ";
        let p1 = write_bytes(display, pos, label.as_bytes(), COLOR_DEFAULT)?;
        proof {
            crate::display::lemma_write_bytes_pos_bound(
                pos.0 as int,
                pos.1 as int,
                label.spec_bytes(),
                w,
            );
        }
        let p3 = self.mem_type.output(display, p1)?;
        proof {
            let text = spec_mem_type_text(self.mem_type);
            assert(text.len() <= 18) by {
                reveal_strlit("Free");
                reveal_strlit("Kernel loaded");
                reveal_strlit("Reserved");
                reveal_strlit("Hardware Reserved");
                reveal_strlit("Faulty RAM");
                reveal_strlit("Unknown");
                reveal_strlit("Hardware specific ");
                reveal_strlit("Flash");
                assert(vstd::string::is_ascii("Free"));
                assert(vstd::string::is_ascii("Kernel loaded"));
                assert(vstd::string::is_ascii("Reserved"));
                assert(vstd::string::is_ascii("Hardware Reserved"));
                assert(vstd::string::is_ascii("Faulty RAM"));
                assert(vstd::string::is_ascii("Unknown"));
                assert(vstd::string::is_ascii("Hardware specific "));
                assert(vstd::string::is_ascii("Flash"));
                vstd::string::is_ascii_spec_bytes("Free");
                vstd::string::is_ascii_spec_bytes("Kernel loaded");
                vstd::string::is_ascii_spec_bytes("Reserved");
                vstd::string::is_ascii_spec_bytes("Hardware Reserved");
                vstd::string::is_ascii_spec_bytes("Faulty RAM");
                vstd::string::is_ascii_spec_bytes("Unknown");
                vstd::string::is_ascii_spec_bytes("Hardware specific ");
                vstd::string::is_ascii_spec_bytes("Flash");
            }
            crate::display::lemma_write_bytes_pos_bound(p1.0 as int, p1.1 as int, text, w);
            let p2 = spec_write_bytes_pos(p1.0 as int, p1.1 as int, text, w);
            if let MemoryType::HardwareSpecific(tag, a) = self.mem_type {
                assert(dec_buf(tag as nat, 10).len() == 10) by {
                    crate::util::lemma_small_digits_fit(tag as nat, 10);
                }
                crate::display::lemma_write_bytes_pos_bound(
                    p2.0,
                    p2.1,
                    dec_buf(tag as nat, 10),
                    w,
                );
                let pa = spec_write_bytes_pos(p2.0, p2.1, dec_buf(tag as nat, 10), w);
                assert(spec_allocatable_text(a).len() <= 15) by {
                    reveal_strlit(", allocatable");
                    reveal_strlit(", unallocatable");
                    assert(vstd::string::is_ascii(", allocatable"));
                    assert(vstd::string::is_ascii(", unallocatable"));
                    vstd::string::is_ascii_spec_bytes(", allocatable");
                    vstd::string::is_ascii_spec_bytes(", unallocatable");
                }
                crate::display::lemma_write_bytes_pos_bound(
                    pa.0,
                    pa.1,
                    spec_allocatable_text(a),
                    w,
                );
            }
        }
        let start_label = "; Start: ";
        let p4 = write_bytes(display, p3, start_label.as_bytes(), COLOR_DEFAULT)?;
        proof {
            crate::display::lemma_write_bytes_pos_bound(
                p3.0 as int,
                p3.1 as int,
                start_label.spec_bytes(),
                w,
            );
        }
        let start_digits = u64_as_u8_slice(self.start);
        proof {
            assert(dec_buf(self.start as nat, 20).len() == 20) by {
                crate::util::lemma_u64_digits_fit(self.start);
            }
        }
        let p5 = write_bytes(display, p4, start_digits.as_slice(), COLOR_DEFAULT)?;
        proof {
            crate::display::lemma_write_bytes_pos_bound(p4.0 as int, p4.1 as int, start_digits@, w);
        }
        let len_label = "; Length: ";
        let p6 = write_bytes(display, p5, len_label.as_bytes(), COLOR_DEFAULT)?;
        proof {
            crate::display::lemma_write_bytes_pos_bound(
                p5.0 as int,
                p5.1 as int,
                len_label.spec_bytes(),
                w,
            );
        }
        let len_digits = u64_as_u8_slice(self.len);
        let p7 = write_bytes(display, p6, len_digits.as_slice(), COLOR_DEFAULT)?;
        Ok(p7)
    }
}

/// The sum of the lengths of the allocatable mappings in `maps`.
pub open spec fn allocatable_size(maps: Seq<MemoryMapping>) -> nat
    decreases maps.len(),
{
    if maps.len() == 0 {
        0
    } else {
        allocatable_size(maps.drop_last()) + if spec_allocatable(maps.last().mem_type) {
            maps.last().len as nat
        } else {
            0
        }
    }
}

/// A memory map outputted by the bootloader or by the kernel: the ordered
/// collection of all mappings for the machine.
#[derive(Clone, Debug)]
pub struct MemoryMap {
    /// The number of [`MemoryMapping`]s in this MemoryMap.
    pub len: u64,
    /// The size of memory in pages.
    pub size_pages: u64,
    /// The size of one page.
    pub page_size: u64,
    /// All sections.
    pub sections: Vec<MemoryMapping>,
    /// Iterator's index.
    pub idx: usize,
}

impl MemoryMap {
    /// The number of sections.
    pub fn len(&self) -> (r: u64)
        ensures
            r == self.sections@.len(),
    {
        self.sections.len() as u64
    }

    /// Resets the index of the iterator (sets self.idx to 0).
    pub fn reset_iter(&mut self)
        ensures
            *final(self) == (MemoryMap { idx: 0, ..*old(self) }),
    {
        self.idx = 0;
    }

    /// The size of allocatable memory in bytes.
    pub fn mem_size(&mut self) -> (out: u64)
        requires
            allocatable_size(old(self).sections@) <= u64::MAX,
        ensures
            *final(self) == *old(self),
            out == allocatable_size(old(self).sections@),
    {
        let curr_idx = self.idx;
        self.reset_iter();
        let mut out: u64 = 0;
        let mut i: usize = 0;
        while i < self.sections.len()
            invariant
                i <= self.sections@.len(),
                out == allocatable_size(self.sections@.subrange(0, i as int)),
                allocatable_size(self.sections@) <= u64::MAX,
            decreases self.sections@.len() - i,
        {
            proof {
                lemma_allocatable_size_prefix(self.sections@, i + 1);
                assert(self.sections@.subrange(0, i + 1).drop_last() =~= self.sections@.subrange(
                    0,
                    i as int,
                ));
                assert(self.sections@.subrange(0, i + 1).last() == self.sections@[i as int]);
            }
            let ele = &self.sections[i];
            if ele.mem_type.allocatable() {
                out = out + ele.len;
            }
            i = i + 1;
        }
        assert(self.sections@.subrange(0, self.sections@.len() as int) =~= self.sections@);
        self.idx = curr_idx;
        out
    }
}

pub proof fn lemma_allocatable_size_prefix(maps: Seq<MemoryMapping>, k: int)
    requires
        0 <= k <= maps.len(),
    ensures
        allocatable_size(maps.subrange(0, k)) <= allocatable_size(maps),
    decreases maps.len() - k,
{
    if k < maps.len() {
        lemma_allocatable_size_prefix(maps, k + 1);
        assert(maps.subrange(0, k + 1).drop_last() =~= maps.subrange(0, k));
    } else {
        assert(maps.subrange(0, k) =~= maps);
    }
}

/// Bootloader-independent information.
#[derive(Clone)]
pub struct BootInfo {
    /// The commandline of the kernel.
    pub cmdline: Option<&'static str>,
    /// The memory map provided by the bootloader. If None, the kernel
    /// will attempt to generate it.
    pub memory_map: Option<MemoryMap>,
    /// The name of the bootloader (for example, "GRUB 2.12").
    pub bootloader_name: Option<&'static str>,
}

} // verus!
