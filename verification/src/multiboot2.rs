//! Definitions of structs for multiboot2 information. Mostly used during
//! pre-userspace.

use vstd::prelude::*;

use crate::boot::{MemoryMapping, MemoryType, allocatable_size};

verus! {

/// Used for Multiboot2 tags. This shouldn't be used after a
/// [`crate::boot::BootInfo`] struct has been initalized, but it still
/// can be used.
#[derive(Clone)]
pub struct Tag {
    /// The type of the tag.
    pub tag_type: u32,
    /// The length of the tag.
    pub tag_len: u32,
}

/// The root tag: the fixed part of the tag stream, ahead of every other
/// tag.
#[derive(Clone)]
pub struct RootTag {
    /// The total length between the root tag and the terminating tag.
    /// You can also search for the tag that has a type of 0 and a
    /// length of 8.
    pub total_len: u32,
    /// Reserved space. Unused for anything.
    pub reserved: u32,
}

/// A Multiboot2 module: a region the bootloader loaded on request,
/// named by a command-line-shaped string.
#[derive(Clone)]
pub struct Module {
    /// The address of the start of the module.
    pub mod_start: u64,
    /// The address of the end of the module.
    pub mod_end: u64,
    /// A string that should be in the format `module_name (command line
    /// arguments)`.
    pub mod_str: String,
}

/// One memory section provided by a Multiboot2 bootloader.
#[derive(Clone, Copy)]
pub struct MemorySection {
    /// The base address of the section.
    pub base_addr: u64,
    /// The length of the section.
    pub length: u64,
    /// The type of the section. Name is changed from the one provided
    /// in the Multiboot2 docs as "type" is a keyword in rust.
    pub mem_type: u32,
    /// Reserved space. Should be ignored.
    pub reserved: u32,
}

/// The classification a Multiboot2 section type number stands for:
/// 1 is free memory, 2 is reserved by the hardware, 3 holds ACPI
/// information (hardware-specific, not allocatable), 5 is faulty, and
/// everything else is treated as reserved.
pub open spec fn spec_mem_type_of(t: u32) -> MemoryType {
    if t == 1 {
        MemoryType::Free
    } else if t == 2 {
        MemoryType::HardwareReserved
    } else if t == 3 {
        MemoryType::HardwareSpecific(3, false)
    } else if t == 5 {
        MemoryType::Faulty
    } else {
        MemoryType::Reserved
    }
}

impl From<MemorySection> for MemoryMapping {
    /// Turns a Multiboot2 memory section into a bootloader-independent
    /// mapping, classifying its type number as [`spec_mem_type_of`]
    /// says.
    fn from(val: MemorySection) -> (r: Self) {
        MemoryMapping {
            mem_type: match val.mem_type {
                1 => MemoryType::Free,
                2 => MemoryType::HardwareReserved,
                3 => MemoryType::HardwareSpecific(3, false),
                5 => MemoryType::Faulty,
                _ => MemoryType::Reserved,
            },
            start: val.base_addr,
            len: val.length,
        }
    }
}

impl vstd::std_specs::convert::FromSpecImpl<MemorySection> for MemoryMapping {
    open spec fn obeys_from_spec() -> bool {
        true
    }

    open spec fn from_spec(val: MemorySection) -> MemoryMapping {
        MemoryMapping { mem_type: spec_mem_type_of(val.mem_type), start: val.base_addr, len: val.length }
    }
}

/// A full memory map provided by a Multiboot2 bootloader.
#[derive(Clone)]
pub struct MemoryMap {
    /// The version of the memory map. Should be disregarded as it's 0.
    pub version: u32,
    /// Size of one entry (one [`MemorySection`] for Multiboot2 support).
    pub entry_size: u32,
    /// All sections.
    pub sections: Vec<MemoryMapping>,
}

impl MemoryMap {
    /// The size of allocatable memory in bytes.
    pub fn mem_size(&mut self) -> (out: u64)
        requires
            allocatable_size(old(self).sections@) <= u64::MAX,
        ensures
            *final(self) == *old(self),
            out == allocatable_size(old(self).sections@),
    {
        let mut out: u64 = 0;
        let mut i: usize = 0;
        while i < self.sections.len()
            invariant
                i <= self.sections@.len(),
                out == allocatable_size(self.sections@.subrange(0, i as int)),
                allocatable_size(self.sections@) <= u64::MAX,
            decreases self.sections@.len() - i,
        {
            proof {
                crate::boot::lemma_allocatable_size_prefix(self.sections@, i + 1);
                assert(self.sections@.subrange(0, i + 1).drop_last() =~= self.sections@.subrange(
                    0,
                    i as int,
                ));
                assert(self.sections@.subrange(0, i + 1).last() == self.sections@[i as int]);
            }
            let ele = &self.sections[i];
            if ele.mem_type.allocatable() {
                out = out + ele.len;
            }
            i = i + 1;
        }
        assert(self.sections@.subrange(0, self.sections@.len() as int) =~= self.sections@);
        out
    }
}

/// A color descriptor for [`ColorInfo::Palette`].
#[derive(Clone, Copy)]
pub struct PaletteColorDescriptor {
    /// The red value.
    pub red: u8,
    /// The green value.
    pub green: u8,
    /// The blue value.
    pub blue: u8,
}

/// Information about color, for use in [`FramebufferInfo`].
#[derive(Clone, Copy)]
pub enum ColorInfo {
    /// The palette for use on the framebuffer.
    Palette {
        /// The number of colors in the palette.
        num_colors: u32,
        /// The address of the first color in the palette.
        palette: u64,
    },
    /// RGB information for use on the framebuffer.
    RGBColor {
        /// Red color information.
        red_field_position: u8,
        /// See above.
        red_mask_size: u8,
        /// Green color information.
        green_field_position: u8,
        /// See above.
        green_mask_size: u8,
        /// Blue color information.
        blue_field_position: u8,
        /// See above.
        blue_mask_size: u8,
    },
    /// Text information, no metadata.
    EGAText,
}

/// Information about the framebuffer.
#[derive(Clone)]
pub struct FramebufferInfo {
    /// A pointer to the framebuffer.
    pub address: u64,
    /// The pitch of the framebuffer (i.e. the number of bytes in each
    /// row).
    pub pitch: u32,
    /// The width of the framebuffer.
    pub width: u32,
    /// The height of the framebuffer.
    pub height: u32,
    /// Bits per pixel.
    pub bpp: u8,
    /// The type of the framebuffer. 0=indexed, 1=RGB, 2=text.
    pub fb_type: u8,
    /// Reserved space. Ignore.
    pub reserved: u8,
}

/// Boot info collected from provided [`Tag`]s.
#[derive(Clone)]
pub struct Multiboot2BootInfo {
    /// mem_lower indicates the amount of "lower memory", mem_upper the
    /// amount of "upper memory".
    pub mem_lower: Option<u32>,
    /// See above.
    pub mem_upper: Option<u32>,
    /// The commandline, a UTF-8 string provided by the bootloader.
    pub cmdline: Option<String>,
    /// The memory map provided by the bootloader.
    pub memory_map: Option<MemoryMap>,
    /// The name of the bootloader (for example, "GRUB 2.12").
    pub bootloader_name: Option<String>,
    /// Provides information on the framebuffer.
    pub framebuffer_info: Option<FramebufferInfo>,
    /// Color info, stored separately from [`FramebufferInfo`].
    pub color_info: Option<ColorInfo>,
}

} // verus!
