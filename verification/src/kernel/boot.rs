//! What the bootloader hands the kernel.

use vstd::prelude::*;

verus! {

/// Where the firmware's memory map lies (`entries` is its address).
#[derive(Debug, Clone, Copy, PartialEq, Eq, Structural)]
pub struct MemoryMapInfo {
    pub entries: usize,
    pub entry_count: usize,
    pub entry_size: usize,
}

/// The linear framebuffer.
#[derive(Debug, Clone, Copy, PartialEq, Eq, Structural)]
pub struct FramebufferInfo {
    pub base: u64,
    pub size: usize,
    pub width: u32,
    pub height: u32,
    pub stride: u32,
    pub pixel_format: u32,
}

/// Everything the bootloader hands the kernel.
#[derive(Debug, Clone, Copy, PartialEq, Eq, Structural)]
pub struct BootInfo {
    pub memory_map: MemoryMapInfo,
    pub framebuffer: FramebufferInfo,
}

/// The colour the kernel fills the screen with at start (green).
pub const FILL_COLOR: u32 = 0x0000FF00;

impl FramebufferInfo {
    /// The number of 32-bit pixels from the base to the end of the last
    /// line: the stride times the height, which must fit in 32 bits.
    pub fn pixel_count(&self) -> (n: usize)
        requires
            self.stride * self.height <= u32::MAX,
        ensures
            n == self.stride * self.height,
    {
        (self.stride * self.height) as usize
    }
}

} // verus!
