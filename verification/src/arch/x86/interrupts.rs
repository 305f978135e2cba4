//! Provides interrupt-related types: the layout of interrupt descriptor
//! table entries and of the stack frame an interrupt handler sees.

use vstd::prelude::*;

verus! {

/// The stack frame the processor hands an interrupt handler.
#[derive(Clone, Copy)]
pub struct InterruptStackFrame {
    /// The saved instruction pointer.
    pub ip: usize,
    /// The saved code segment.
    pub cs: usize,
    /// The saved processor flags.
    pub flags: usize,
    /// The saved stack pointer.
    pub sp: usize,
    /// The saved stack segment.
    pub ss: usize,
}

/// One entry of an interrupt descriptor table.
#[derive(Clone, Copy)]
pub struct IdtEntry {
    /// The upper half of the handler's address.
    pub offset_high: u16,
    /// The code segment the handler runs in.
    pub segment: u16,
    /// Reserved space. Ignore.
    pub filler: u8,
    /// The attribute bits: present, privilege, and descriptor kind.
    pub attrs: u8,
    /// The lower half of the handler's address.
    pub offset_low: u16,
}

/// The attribute byte of an IDT entry: the present bit, the privilege
/// bits of a user-callable handler, and the descriptor kind, which
/// differs between an exception handler and an ordinary one.
pub open spec fn spec_idt_attrs(user_callable: bool, exception: bool) -> u8 {
    0b10000000u8 | (if user_callable {
        0b1100000u8
    } else {
        0u8
    }) | (if exception {
        0b1111u8
    } else {
        0b1110u8
    })
}

impl IdtEntry {
    /// Builds an IDT entry from a handler's address, whether userspace
    /// may call it, and whether it handles an exception: the address is
    /// split into its halves around the kernel code segment selector,
    /// and the attributes are exactly the ones [`spec_idt_attrs`] names.
    pub fn from_data(func: usize, user_callable: bool, exception: bool) -> (r: Self)
        ensures
            r.offset_high == ((func as u32) >> 16) as u16,
            r.offset_low == ((func as u32) & 0xFFFF) as u16,
            r.segment == super::gdt::GDT_KERNEL_CODE_SEGMENT,
            r.attrs == spec_idt_attrs(user_callable, exception),
    {
        let func = func as u32;
        let attrs = 0b10000000u8 | (if user_callable {
            0b1100000u8
        } else {
            0u8
        }) | (if exception {
            0b1111u8
        } else {
            0b1110u8
        });
        Self {
            offset_high: (func >> 16) as u16,
            segment: super::gdt::GDT_KERNEL_CODE_SEGMENT,
            attrs,
            filler: 0,
            offset_low: (func & 0xFFFF) as u16,
        }
    }
}

/// An Interrupt Descriptor Table.
pub type Idt = [IdtEntry; 256];

} // verus!
