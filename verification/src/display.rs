//! Types, constants and traits for displaying text.

use vstd::prelude::*;
use vstd::string::StringSliceAdditionalSpecFns;

use crate::errors::Error;

verus! {

/// A type used for color in the functions of [`TextDisplay`].
///
/// Type alias for (u8, bool). Boolean argument is whether to change the
/// value (i.e. for [`COLOR_BLACK`] and [`COLOR_DEFAULT`]).
pub type Color = (u8, bool);

/// Black-on-black.
pub const COLOR_BLACK: Color = (0, true);

/// Should be whatever color commonly used for status messages. Generally
/// should be white-on-black. Value is one.
pub const COLOR_DEFAULT: Color = (1, true);

/// Some form of display that can be written to with text. Implementors
/// decide what a write does and when one fails; the screen size they
/// report must be the one [`TextDisplay::spec_size`] names.
pub trait TextDisplay {
    /// The size of the screen, in spec position.
    spec fn spec_size(&self) -> (u32, u32);

    /// Writes a single character to the specified position.
    fn write_char(&self, pos: (u32, u32), ch: u8, color: Color) -> (r: Result<
        (),
        Error<'static>,
    >);

    /// Gets the size of the screen.
    fn get_size(&self) -> (r: Result<(u32, u32), Error<'static>>)
        ensures
            r matches Ok(sz) ==> sz == self.spec_size(),
    ;

    /// Scroll the screen up one character. Clear the bottom row.
    fn scroll(&self);
}

/// Where the cursor stands after one byte is written at `(x, y)` on a
/// screen `w` columns wide: a zero byte does not advance it; any other
/// byte advances it one column, wrapping past the right edge onto the
/// next row.
pub open spec fn spec_char_step(x: int, y: int, ch: u8, w: int) -> (int, int) {
    if ch == 0 {
        (x, y)
    } else if x + 1 > w {
        (x + 1 - w, y + 1)
    } else {
        (x + 1, y)
    }
}

/// Where the cursor stands after the bytes of `s` are written from
/// `(x, y)` on a screen of width `w` and height `h`, scrolling one row
/// whenever a byte would land below the last row.
pub open spec fn spec_write_str_pos(x: int, y: int, s: Seq<u8>, w: int, h: int) -> (int, int)
    decreases s.len(),
{
    if s.len() == 0 {
        (x, y)
    } else {
        let y1 = if y >= h {
            y - 1
        } else {
            y
        };
        let p = spec_char_step(x, y1, s[0], w);
        spec_write_str_pos(p.0, p.1, s.skip(1), w, h)
    }
}

/// Where the cursor stands after the bytes of `s` are written from
/// `(x, y)` on a screen of width `w`, without scrolling: the row only
/// ever grows.
pub open spec fn spec_write_bytes_pos(x: int, y: int, s: Seq<u8>, w: int) -> (int, int)
    decreases s.len(),
{
    if s.len() == 0 {
        (x, y)
    } else {
        let p = spec_char_step(x, y, s[0], w);
        spec_write_bytes_pos(p.0, p.1, s.skip(1), w)
    }
}

/// Clears the screen: writes a blank to every position. Stops at, and
/// hands back, the first failing write.
pub fn clear_screen<T: TextDisplay>(display: &T, color: Color) -> (r: Result<(), Error<'static>>) {
    let size = display.get_size()?;
    let (width, height) = size;
    let mut x: u32 = 0;
    while x < width
        decreases width - x,
    {
        let mut y: u32 = 0;
        while y < height
            decreases height - y,
        {
            display.write_char((x, y), 32u8, color)?;
            y = y + 1;
        }
        x = x + 1;
    }
    Ok(())
}

/// Writes a &str to the screen, wrapping at the right edge and scrolling
/// at the bottom one. On success the returned position is exactly the
/// one [`spec_write_str_pos`] names; the first failing write is handed
/// back instead.
pub fn write_str<T: TextDisplay>(display: &T, pos: (u32, u32), s: &str, color: Color) -> (r:
    Result<(u32, u32), Error<'static>>)
    requires
        pos.0 <= display.spec_size().0,
        pos.1 <= display.spec_size().1,
        display.spec_size().0 >= 1,
        display.spec_size().0 < u32::MAX,
        display.spec_size().1 >= 1,
    ensures
        r matches Ok(p) ==> (p.0 as int, p.1 as int) == spec_write_str_pos(
            pos.0 as int,
            pos.1 as int,
            s.spec_bytes(),
            display.spec_size().0 as int,
            display.spec_size().1 as int,
        ),
{
    let size = display.get_size()?;
    let (width, height) = size;
    let bytes = s.as_bytes();
    let ghost all = s.spec_bytes();
    let mut x = pos.0;
    let mut y = pos.1;
    let mut i: usize = 0;
    proof {
        assert(all.skip(0) =~= all);
    }
    while i < bytes.len()
        invariant
            i <= all.len(),
            bytes@ == all,
            width == display.spec_size().0,
            height == display.spec_size().1,
            width >= 1,
            width < u32::MAX,
            height >= 1,
            x <= width,
            y <= height,
            spec_write_str_pos(
                pos.0 as int,
                pos.1 as int,
                all,
                width as int,
                height as int,
            ) == spec_write_str_pos(x as int, y as int, all.skip(i as int), width as int, height as int),
        decreases all.len() - i,
    {
        proof {
            assert(all.skip(i as int)[0] == all[i as int]);
            assert(all.skip(i as int).skip(1) =~= all.skip(i + 1));
        }
        if y >= height {
            display.scroll();
            y = y - 1;
        }
        let ghost y1 = y as int;
        let ghost x1 = x as int;
        let ch = bytes[i];
        display.write_char((x, y), ch, color)?;
        if ch != 0 {
            x = x + 1;
            if x > width {
                x = x - width;
                y = y + 1;
            }
        }
        proof {
            assert((x as int, y as int) == spec_char_step(x1, y1, all[i as int], width as int));
        }
        i = i + 1;
    }
    proof {
        assert(all.skip(all.len() as int) =~= Seq::<u8>::empty());
    }
    Ok((x, y))
}

/// Writes a &\[u8] to the screen, wrapping at the right edge but never
/// scrolling. On success the returned position is exactly the one
/// [`spec_write_bytes_pos`] names; the first failing write is handed
/// back instead.
pub fn write_bytes<T: TextDisplay>(display: &T, pos: (u32, u32), s: &[u8], color: Color) -> (r:
    Result<(u32, u32), Error<'static>>)
    requires
        pos.0 <= display.spec_size().0,
        display.spec_size().0 >= 1,
        display.spec_size().0 < u32::MAX,
        pos.1 + s@.len() <= u32::MAX,
    ensures
        r matches Ok(p) ==> (p.0 as int, p.1 as int) == spec_write_bytes_pos(
            pos.0 as int,
            pos.1 as int,
            s@,
            display.spec_size().0 as int,
        ),
{
    let size = display.get_size()?;
    let (width, _) = size;
    let ghost all = s@;
    let mut x = pos.0;
    let mut y = pos.1;
    let mut i: usize = 0;
    proof {
        assert(all.skip(0) =~= all);
    }
    while i < s.len()
        invariant
            i <= all.len(),
            s@ == all,
            width == display.spec_size().0,
            width >= 1,
            width < u32::MAX,
            x <= width,
            y + (all.len() - i) <= u32::MAX,
            spec_write_bytes_pos(pos.0 as int, pos.1 as int, all, width as int)
                == spec_write_bytes_pos(x as int, y as int, all.skip(i as int), width as int),
        decreases all.len() - i,
    {
        proof {
            assert(all.skip(i as int)[0] == all[i as int]);
            assert(all.skip(i as int).skip(1) =~= all.skip(i + 1));
        }
        let ghost x1 = x as int;
        let ghost y1 = y as int;
        let ch = s[i];
        display.write_char((x, y), ch, color)?;
        if ch != 0 {
            x = x + 1;
            if x > width {
                x = x - width;
                y = y + 1;
            }
        }
        proof {
            assert((x as int, y as int) == spec_char_step(x1, y1, all[i as int], width as int));
        }
        i = i + 1;
    }
    proof {
        assert(all.skip(all.len() as int) =~= Seq::<u8>::empty());
    }
    Ok((x, y))
}

/// A bound on where the cursor can land: writing `s` bytes without
/// scrolling moves the row down at most one per byte, and leaves the
/// column within the screen.
pub proof fn lemma_write_bytes_pos_bound(x: int, y: int, s: Seq<u8>, w: int)
    requires
        w >= 1,
        0 <= x <= w,
    ensures
        ({
            let p = spec_write_bytes_pos(x, y, s, w);
            &&& 0 <= p.0 <= w
            &&& y <= p.1 <= y + s.len()
        }),
    decreases s.len(),
{
    if s.len() > 0 {
        let p = spec_char_step(x, y, s[0], w);
        lemma_write_bytes_pos_bound(p.0, p.1, s.skip(1), w);
    }
}

/// An implementation of [`TextDisplay`]. Returns (1,1) for the size and
/// always returns Ok(()) for all functions.
pub struct NoneTextDisplay {}

impl TextDisplay for NoneTextDisplay {
    open spec fn spec_size(&self) -> (u32, u32) {
        (1u32, 1u32)
    }

    fn get_size(&self) -> (r: Result<(u32, u32), Error<'static>>)
        ensures
            r matches Ok(sz) && sz == self.spec_size(),
    {
        Ok((1, 1))
    }

    fn write_char(&self, pos: (u32, u32), ch: u8, color: Color) -> (r: Result<(), Error<'static>>)
        ensures
            r is Ok,
    {
        Ok(())
    }

    fn scroll(&self) {
    }
}

} // verus!
