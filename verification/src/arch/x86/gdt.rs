//! GDT initalization: serializing descriptor-table entries into the
//! byte format the processor reads.

use vstd::prelude::*;

use crate::errors::Error;

verus! {

/// The selector of the kernel's code segment.
pub const GDT_KERNEL_CODE_SEGMENT: u16 = 0x08;

/// The selector of the kernel's data segment.
pub const GDT_KERNEL_DATA_SEGMENT: u16 = 0x10;

/// The selector of userspace's code segment.
pub const GDT_USER_CODE_SEGMENT: u16 = 0x18;

/// The selector of userspace's data segment.
pub const GDT_USER_DATA_SEGMENT: u16 = 0x20;

/// The selector of the remaining data segment.
pub const GDT_OTHER_DATA_SEGMENT: u16 = 0x28;

/// An error returned when a GDT entry's limit is greater than 0xFFFFF.
pub const GDT_WRITE_ADDR_INVALID_LIMIT: i16 = -1;

/// A GDT entry.
#[derive(Clone, Copy)]
pub struct GDTEntry {
    /// The size of the entry. Has to be less than 0xFFFFF.
    pub limit: u32,
    /// The base address of the entry.
    pub base: u32,
    /// The access byte of the entry.
    pub access: u8,
    /// The flags of the entry.
    pub flags: u8,
}

/// The eight bytes a GDT entry serializes to: the limit's low bytes
/// first, the base spread over the middle, the access byte, and the
/// limit's top nibble packed with the flags.
pub open spec fn spec_gdt_bytes(e: GDTEntry) -> Seq<u8> {
    seq![
        (e.limit & 0xFF) as u8,
        ((e.limit >> 8) & 0xFF) as u8,
        (e.base & 0xFF) as u8,
        ((e.base >> 8) & 0xFF) as u8,
        ((e.base >> 16) & 0xFF) as u8,
        e.access,
        (((e.limit >> 16) & 0x0F) as u8) | (e.flags << 4),
        ((e.base >> 24) & 0xFF) as u8,
    ]
}

impl GDTEntry {
    /// Serializes the entry into the byte format [`spec_gdt_bytes`]
    /// names. Fails exactly when the limit does not fit its 20 bits.
    pub fn serialize(self) -> (r: Result<[u8; 8], Error<'static>>)
        ensures
            r matches Ok(out) ==> self.limit <= 0xFFFFF && out@ == spec_gdt_bytes(self),
            r matches Err(e) ==> self.limit > 0xFFFFF && e.spec_code()
                == GDT_WRITE_ADDR_INVALID_LIMIT,
    {
        if self.limit > 0xFFFFF {
            return Err(
                Error::new("Invalid GDT entry limit(more than 0xFFFFF)",
                GDT_WRITE_ADDR_INVALID_LIMIT),
            );
        }
        Ok(self.serialize_panicing())
    }

    /// Serializes the entry into the byte format [`spec_gdt_bytes`]
    /// names; the limit must fit its 20 bits.
    pub fn serialize_panicing(self) -> (out: [u8; 8])
        requires
            self.limit <= 0xFFFFF,
        ensures
            out@ == spec_gdt_bytes(self),
    {
        let mut out = [0u8; 8];

        out[0] = (self.limit & 0xFF) as u8;
        out[1] = ((self.limit >> 8) & 0xFF) as u8;
        out[6] = ((self.limit >> 16) & 0x0F) as u8;

        out[2] = (self.base & 0xFF) as u8;
        out[3] = ((self.base >> 8) & 0xFF) as u8;
        out[4] = ((self.base >> 16) & 0xFF) as u8;
        out[7] = ((self.base >> 24) & 0xFF) as u8;

        out[5] = self.access;

        out[6] = out[6] | (self.flags << 4);

        proof {
            assert(out@ =~= spec_gdt_bytes(self));
        }
        out
    }
}

/// Serializes six GDT entries into the 48 bytes the processor reads:
/// each entry's eight bytes, in entry order. Every limit must fit its
/// 20 bits.
pub fn serialize_gdt_entries(entries: [GDTEntry; 6]) -> (out: [u8; 48])
    requires
        forall|k: int| 0 <= k < 6 ==> (#[trigger] entries@[k]).limit <= 0xFFFFF,
    ensures
        forall|k: int|
            0 <= k < 6 ==> out@.subrange(8 * k, 8 * k + 8) == spec_gdt_bytes(#[trigger] entries@[k]),
{
    let mut out = [0u8; 48];
    let mut k: usize = 0;
    while k < 6
        invariant
            k <= 6,
            forall|t: int| 0 <= t < 6 ==> (#[trigger] entries@[t]).limit <= 0xFFFFF,
            forall|t: int, m: int|
                0 <= t < k && 0 <= m < 8 ==> #[trigger] out@[8 * t + m] == spec_gdt_bytes(
                    entries@[t],
                )[m],
        decreases 6 - k,
    {
        let bytes = entries[k].serialize_panicing();
        let mut j: usize = 0;
        while j < 8
            invariant
                k < 6,
                j <= 8,
                bytes@ == spec_gdt_bytes(entries@[k as int]),
                forall|t: int, m: int|
                    0 <= t < k && 0 <= m < 8 ==> #[trigger] out@[8 * t + m] == spec_gdt_bytes(
                        entries@[t],
                    )[m],
                forall|m: int| 0 <= m < j ==> #[trigger] out@[8 * (k as int) + m] == bytes@[m],
            decreases 8 - j,
        {
            out[8 * k + j] = bytes[j];
            j = j + 1;
        }
        k = k + 1;
    }
    proof {
        assert forall|t: int| 0 <= t < 6 implies out@.subrange(8 * t, 8 * t + 8) == spec_gdt_bytes(
            #[trigger] entries@[t],
        ) by {
            assert(forall|m: int|
                0 <= m < 8 ==> #[trigger] out@.subrange(8 * t, 8 * t + 8)[m] == out@[8 * t + m]);
            assert(out@.subrange(8 * t, 8 * t + 8) =~= spec_gdt_bytes(entries@[t]));
        }
    }
    out
}

} // verus!
