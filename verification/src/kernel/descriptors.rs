//! Entries of the global and interrupt descriptor tables.

use vstd::prelude::*;

verus! {

/// A segment descriptor of the global descriptor table.
#[derive(Debug, Clone, Copy, PartialEq, Eq, Structural)]
pub struct GdtEntry(pub u64);

/// The code segment selector of the kernel.
pub const KERNEL_CS: u16 = 0x08;

/// The data segment selector of the kernel.
pub const KERNEL_DS: u16 = 0x10;

impl GdtEntry {
    /// The null descriptor that must come first.
    pub fn null() -> (e: Self)
        ensures
            e.0 == 0,
    {
        GdtEntry(0)
    }

    /// A 64-bit ring-0 code segment over the whole address space.
    pub fn kernel_code() -> (e: Self)
        ensures
            e.0 == 0x00AF9A000000FFFF,
    {
        GdtEntry(0x00AF9A000000FFFF)
    }

    /// A ring-0 data segment over the whole address space.
    pub fn kernel_data() -> (e: Self)
        ensures
            e.0 == 0x00CF92000000FFFF,
    {
        GdtEntry(0x00CF92000000FFFF)
    }
}

/// A gate of the interrupt descriptor table: the handler's address split in
/// three, its code segment selector, its interrupt stack and its type.
#[derive(Debug, Clone, Copy, PartialEq, Eq, Structural)]
pub struct IdtEntry {
    pub offset_low: u16,
    pub selector: u16,
    pub ist: u8,
    pub type_attrs: u8,
    pub offset_mid: u16,
    pub offset_high: u32,
    pub zero: u32,
}

/// The handler address that an entry holds.
pub open spec fn entry_offset(e: IdtEntry) -> u64 {
    (e.offset_high as u64) << 32u64 | (e.offset_mid as u64) << 16u64 | (e.offset_low as u64)
}

impl IdtEntry {
    /// An entry for the handler at `offset`, its address split in three.
    pub fn new(offset: u64, selector: u16, ist: u8, type_attrs: u8) -> (e: Self)
        ensures
            e.offset_low == offset as u16,
            e.offset_mid == (offset >> 16u64) as u16,
            e.offset_high == (offset >> 32u64) as u32,
            e.selector == selector,
            e.ist == ist,
            e.type_attrs == type_attrs,
            e.zero == 0,
    {
        IdtEntry {
            offset_low: offset as u16,
            selector,
            ist,
            type_attrs,
            offset_mid: (offset >> 16u64) as u16,
            offset_high: (offset >> 32u64) as u32,
            zero: 0,
        }
    }

    /// An entry for a vector that has no handler.
    pub fn missing() -> (e: Self)
        ensures
            e == (IdtEntry {
                offset_low: 0,
                selector: 0,
                ist: 0,
                type_attrs: 0,
                offset_mid: 0,
                offset_high: 0,
                zero: 0,
            }),
    {
        IdtEntry { offset_low: 0, selector: 0, ist: 0, type_attrs: 0, offset_mid: 0, offset_high: 0, zero: 0 }
    }
}

/// The three parts of an entry put back together give the handler address
/// it was made with.
pub proof fn law_idt_offset_roundtrip(offset: u64, selector: u16, ist: u8, type_attrs: u8)
    ensures
        entry_offset(
            IdtEntry {
                offset_low: offset as u16,
                selector,
                ist,
                type_attrs,
                offset_mid: (offset >> 16u64) as u16,
                offset_high: (offset >> 32u64) as u32,
                zero: 0,
            },
        ) == offset,
{
    assert(((((offset >> 32u64) as u32) as u64) << 32u64 | (((offset >> 16u64) as u16) as u64) << 16u64
        | ((offset as u16) as u64)) == offset) by (bit_vector);
}

} // verus!
