//! Stuff for writing and reading to the EGA text buffer.

use vstd::prelude::*;

verus! {

/// Returned when the provided position is invalid in the X direction.
pub const ERR_INVALID_X: i16 = -1;

/// Returned when the provided position is invalid in the Y direction.
pub const ERR_INVALID_Y: i16 = -2;

/// White text on a black background.
pub const WHITE_ON_BLACK: u8 = 0b00000111;

/// Black text on a black background.
pub const BLACK_ON_BLACK: u8 = 0b00000000;

/// Information about the framebuffer.
#[derive(Clone, Copy)]
pub struct FramebufferInfo {
    /// A pointer to the framebuffer.
    pub address: u64,
    /// The pitch of the framebuffer (i.e. the number of bytes in each
    /// row).
    pub pitch: u32,
    /// The width of the framebuffer.
    pub width: u32,
    /// The height of the framebuffer.
    pub height: u32,
    /// Bits per pixel.
    pub bpp: u8,
    /// Whether to change the cursor position after outputting text.
    pub change_cursor: bool,
}

impl FramebufferInfo {
    /// The address of the cell at a position: the framebuffer's base,
    /// a row's pitch for every row down, and a pixel's bytes for every
    /// column across.
    pub fn cell_address(&self, pos: (u32, u32)) -> (r: u64)
        requires
            self.address + pos.1 * self.pitch + pos.0 * (self.bpp as u32 / 8) <= u64::MAX,
        ensures
            r == self.address + pos.1 * self.pitch + pos.0 * ((self.bpp as u32 / 8) as int),
    {
        let row: u64 = (pos.1 as u64) * (self.pitch as u64);
        let col: u64 = (pos.0 as u64) * ((self.bpp as u32 / 8) as u64);
        self.address + row + col
    }

    /// The cursor address of a position: its row times the screen's
    /// width, plus its column.
    pub fn cursor_address(&self, pos: (u32, u32)) -> (r: u64)
        ensures
            r == pos.1 * self.width + pos.0,
    {
        proof {
            assert((pos.1 as int) * (self.width as int) + (pos.0 as int) <= u64::MAX)
                by (nonlinear_arith)
                requires
                    pos.1 <= u32::MAX,
                    self.width <= u32::MAX,
                    pos.0 <= u32::MAX,
            ;
        }
        (pos.1 as u64) * (self.width as u64) + (pos.0 as u64)
    }
}

} // verus!
