//! PC Screen Font stuff.

use vstd::prelude::*;

use crate::errors::Error;

verus! {

/// PC Screen Font magic number.
pub const PSF_MAGIC: u32 = 0x864ab572;

/// Error code returned when the PSF has an invalid magic number.
pub const ERR_INVALID_MAGIC: i16 = -1;

/// A PC Screen font, header fields laid out as in the file.
#[derive(Debug)]
pub struct RawPCScreenFont {
    /// The magic number. Should be 0x864ab572.
    pub magic: u32,
    /// The version. Should be 0.
    pub version: u32,
    /// The size of the header/offset of bitmaps.
    pub header_size: u32,
    /// Flags. 0 if there's no unicode table.
    pub flags: u32,
    /// The number of glyphs.
    pub num_glyphs: u32,
    /// The number of bytes per glyph.
    pub bytes_per_glyph: u32,
    /// The height of each glyph.
    pub height: u32,
    /// The width of each glyph.
    pub width: u32,
    /// The glyphs.
    pub glyphs: Vec<u8>,
}

/// The glyph type for [`PCScreenFont`].
#[derive(Clone, Debug)]
pub struct Glyph {
    /// The size of this glyph.
    pub len: u32,
    /// The height of this glyph.
    pub height: u32,
    /// The width of this glyph.
    pub width: u32,
    /// The raw glyph data.
    pub data: Vec<u8>,
}

/// A more useful form of [`RawPCScreenFont`].
#[derive(Debug)]
pub struct PCScreenFont {
    /// The version. Should be 0.
    pub version: u32,
    /// Flags. 0 if there's no unicode table.
    pub flags: u32,
    /// The height of each glyph.
    pub height: u32,
    /// The width of each glyph.
    pub width: u32,
    /// The glyphs.
    pub glyphs: Vec<Glyph>,
    /// The unicode translation table.
    pub unitable: Option<Vec<Vec<u8>>>,
}

/// The little-endian 32-bit value of the four bytes at `at`.
pub open spec fn spec_u32_le(s: Seq<u8>, at: int) -> u32 {
    (s[at] + s[at + 1] * 0x100 + s[at + 2] * 0x10000 + s[at + 3] * 0x1000000) as u32
}

/// Reads the little-endian 32-bit value at offset `at`.
fn u32_le_at(data: &[u8], at: usize) -> (r: u32)
    requires
        at + 4 <= data@.len(),
    ensures
        r == spec_u32_le(data@, at as int),
{
    let b0 = data[at] as u32;
    let b1 = data[at + 1] as u32;
    let b2 = data[at + 2] as u32;
    let b3 = data[at + 3] as u32;
    b0 + b1 * 0x100 + b2 * 0x10000 + b3 * 0x1000000
}

/// Parses a PC Screen Font into a [`RawPCScreenFont`]: the eight
/// header fields are the first eight little-endian 32-bit words, the
/// glyph data is everything after the 32-byte header. Fails exactly when
/// the magic number is wrong.
pub fn parse_raw_pc_screen_font(data: Vec<u8>) -> (r: Result<RawPCScreenFont, Error<'static>>)
    requires
        data@.len() >= 32,
    ensures
        r matches Ok(f) ==> {
            &&& f.magic == spec_u32_le(data@, 0) == PSF_MAGIC
            &&& f.version == spec_u32_le(data@, 4)
            &&& f.header_size == spec_u32_le(data@, 8)
            &&& f.flags == spec_u32_le(data@, 12)
            &&& f.num_glyphs == spec_u32_le(data@, 16)
            &&& f.bytes_per_glyph == spec_u32_le(data@, 20)
            &&& f.height == spec_u32_le(data@, 24)
            &&& f.width == spec_u32_le(data@, 28)
            &&& f.glyphs@ == data@.skip(32)
        },
        r matches Err(e) ==> spec_u32_le(data@, 0) != PSF_MAGIC && e.spec_code()
            == ERR_INVALID_MAGIC,
{
    let magic = u32_le_at(data.as_slice(), 0);
    if magic != PSF_MAGIC {
        return Err(Error::new("Invalid magic", ERR_INVALID_MAGIC));
    }
    let version = u32_le_at(data.as_slice(), 4);
    let header_size = u32_le_at(data.as_slice(), 8);
    let flags = u32_le_at(data.as_slice(), 12);
    let num_glyphs = u32_le_at(data.as_slice(), 16);
    let bytes_per_glyph = u32_le_at(data.as_slice(), 20);
    let height = u32_le_at(data.as_slice(), 24);
    let width = u32_le_at(data.as_slice(), 28);
    let mut glyphs: Vec<u8> = Vec::new();
    let mut i: usize = 32;
    while i < data.len()
        invariant
            32 <= i <= data@.len(),
            glyphs@ == data@.subrange(32, i as int),
        decreases data@.len() - i,
    {
        glyphs.push(data[i]);
        proof {
            assert(glyphs@ =~= data@.subrange(32, i + 1));
        }
        i = i + 1;
    }
    proof {
        assert(glyphs@ =~= data@.skip(32));
    }
    Ok(
        RawPCScreenFont {
            magic,
            version,
            header_size,
            flags,
            num_glyphs,
            bytes_per_glyph,
            height,
            width,
            glyphs,
        },
    )
}

/// The bytes of a unicode-table entry: everything before the first
/// terminator byte (0xFF).
pub open spec fn spec_before_terminator(bytes: Seq<u8>) -> Seq<u8>
    decreases bytes.len(),
{
    if bytes.len() == 0 {
        Seq::empty()
    } else if bytes[0] == 0xFF {
        Seq::empty()
    } else {
        seq![bytes[0]] + spec_before_terminator(bytes.skip(1))
    }
}

/// What follows a unicode-table entry: everything after the first
/// terminator byte (0xFF), or nothing if no terminator is left.
pub open spec fn spec_after_terminator(bytes: Seq<u8>) -> Seq<u8>
    decreases bytes.len(),
{
    if bytes.len() == 0 {
        Seq::empty()
    } else if bytes[0] == 0xFF {
        bytes.skip(1)
    } else {
        spec_after_terminator(bytes.skip(1))
    }
}

/// The unicode translation table: one terminator-separated entry per
/// glyph, read in glyph order.
pub open spec fn spec_unitable(bytes: Seq<u8>, n: nat) -> Seq<Seq<u8>>
    decreases n,
{
    if n == 0 {
        Seq::empty()
    } else {
        seq![spec_before_terminator(bytes)] + spec_unitable(
            spec_after_terminator(bytes),
            (n - 1) as nat,
        )
    }
}

/// Parses a [`RawPCScreenFont`] into a [`PCScreenFont`]: the glyph data
/// is cut into one record per glyph, and when the flags announce one
/// (flags = 0), the unicode translation table is read from what follows
/// the glyph data, one terminator-separated entry per glyph.
pub fn parse_pc_screen_font(data: RawPCScreenFont) -> (r: Result<PCScreenFont, Error<'static>>)
    requires
        data.num_glyphs * data.bytes_per_glyph <= data.glyphs@.len(),
    ensures
        r matches Ok(f) ==> {
            &&& f.version == data.version
            &&& f.flags == data.flags
            &&& f.height == data.height
            &&& f.width == data.width
            &&& f.glyphs@.len() == data.num_glyphs
            &&& forall|g: int|
                0 <= g < data.num_glyphs ==> {
                    &&& (#[trigger] f.glyphs@[g]).len == data.bytes_per_glyph
                    &&& f.glyphs@[g].height == data.height
                    &&& f.glyphs@[g].width == data.width
                    &&& f.glyphs@[g].data@ == data.glyphs@.subrange(
                        g * data.bytes_per_glyph,
                        (g + 1) * data.bytes_per_glyph,
                    )
                }
            &&& data.flags == 0 ==> (f.unitable matches Some(u) && u.deep_view()
                == spec_unitable(
                data.glyphs@.skip((data.num_glyphs * data.bytes_per_glyph) as int),
                data.num_glyphs as nat,
            ))
            &&& data.flags != 0 ==> f.unitable is None
        },
        r is Ok,
{
    let bpg = data.bytes_per_glyph as usize;
    let n = data.num_glyphs as usize;
    let glyphs_len: usize = data.glyphs.len();
    let mut glyphs: Vec<Glyph> = Vec::new();
    let mut g: usize = 0;
    while g < n
        invariant
            g <= n,
            glyphs_len == data.glyphs@.len(),
            n * bpg <= glyphs_len,
            bpg == data.bytes_per_glyph,
            n == data.num_glyphs,
            glyphs@.len() == g,
            forall|t: int|
                0 <= t < g ==> {
                    &&& (#[trigger] glyphs@[t]).len == data.bytes_per_glyph
                    &&& glyphs@[t].height == data.height
                    &&& glyphs@[t].width == data.width
                    &&& glyphs@[t].data@ == data.glyphs@.subrange(t * bpg, (t + 1) * bpg)
                },
        decreases n - g,
    {
        proof {
            assert((g + 1) * bpg <= n * bpg) by (nonlinear_arith)
                requires
                    g + 1 <= n,
                    bpg >= 0,
            ;
            assert(g * bpg >= 0 && g * bpg <= (g + 1) * bpg) by (nonlinear_arith)
                requires
                    g >= 0,
                    bpg >= 0,
            ;
            assert((g + 1) * bpg == g * bpg + bpg) by (nonlinear_arith);
        }
        let start = g * bpg;
        let mut chunk: Vec<u8> = Vec::new();
        let mut t: usize = 0;
        while t < bpg
            invariant
                t <= bpg,
                start == g * bpg,
                glyphs_len == data.glyphs@.len(),
                start + bpg <= glyphs_len,
                chunk@ == data.glyphs@.subrange(start as int, start + t),
            decreases bpg - t,
        {
            chunk.push(data.glyphs[start + t]);
            proof {
                assert(chunk@ =~= data.glyphs@.subrange(start as int, start + t + 1));
            }
            t = t + 1;
        }
        glyphs.push(
            Glyph {
                len: data.bytes_per_glyph,
                height: data.height,
                width: data.width,
                data: chunk,
            },
        );
        g = g + 1;
    }
    if data.flags != 0 {
        return Ok(
            PCScreenFont {
                version: data.version,
                flags: data.flags,
                height: data.height,
                width: data.width,
                glyphs,
                unitable: None,
            },
        );
    }
    // Read the unicode translation table that follows the glyph data:
    // one terminator-separated entry per glyph.
    let mut unitable: Vec<Vec<u8>> = Vec::new();
    proof {
        assert(n * bpg >= 0) by (nonlinear_arith)
            requires
                n >= 0,
                bpg >= 0,
        ;
    }
    let mut at: usize = n * bpg;
    let ghost all = data.glyphs@;
    let mut i: usize = 0;
    while i < n
        invariant
            i <= n,
            at <= all.len(),
            all == data.glyphs@,
            unitable@.len() == i,
            unitable.deep_view() + spec_unitable(all.skip(at as int), (n - i) as nat)
                =~= spec_unitable(all.skip((n * bpg) as int), n as nat),
        decreases n - i,
    {
        let ghost entry_bytes = all.skip(at as int);
        let mut entry: Vec<u8> = Vec::new();
        while at < data.glyphs.len() && data.glyphs[at] != 0xFF
            invariant
                at <= all.len(),
                all == data.glyphs@,
                entry@ + spec_before_terminator(all.skip(at as int)) =~= spec_before_terminator(
                    entry_bytes,
                ),
                spec_after_terminator(all.skip(at as int)) =~= spec_after_terminator(entry_bytes),
            decreases all.len() - at,
        {
            proof {
                assert(all.skip(at as int)[0] == all[at as int]);
                assert(all.skip(at as int).skip(1) =~= all.skip(at + 1));
            }
            entry.push(data.glyphs[at]);
            at = at + 1;
        }
        proof {
            if at < all.len() {
                assert(all.skip(at as int)[0] == all[at as int]);
                assert(all.skip(at as int).skip(1) =~= all.skip(at + 1));
                assert(spec_before_terminator(all.skip(at as int)) =~= Seq::<u8>::empty());
            } else {
                assert(all.skip(at as int) =~= Seq::<u8>::empty());
            }
        }
        if at < data.glyphs.len() {
            at = at + 1;
        }
        proof {
            assert(entry@ =~= spec_before_terminator(entry_bytes));
            assert(all.skip(at as int) =~= spec_after_terminator(entry_bytes));
        }
        let ghost old_deep = unitable.deep_view();
        unitable.push(entry);
        proof {
            assert(unitable.deep_view() =~= old_deep.push(entry@)) by {
                assert(forall|k: int|
                    0 <= k < unitable@.len() ==> #[trigger] unitable.deep_view()[k]
                        == unitable@[k]@);
            }
            assert(spec_unitable(entry_bytes, (n - i) as nat) == seq![
                spec_before_terminator(entry_bytes),
            ] + spec_unitable(spec_after_terminator(entry_bytes), (n - i - 1) as nat));
            assert(old_deep.push(entry@) + spec_unitable(
                spec_after_terminator(entry_bytes),
                (n - i - 1) as nat,
            ) =~= old_deep + spec_unitable(entry_bytes, (n - i) as nat));
            assert(unitable.deep_view() + spec_unitable(all.skip(at as int), (n - i - 1) as nat)
                =~= spec_unitable(all.skip((n * bpg) as int), n as nat));
        }
        i = i + 1;
    }
    Ok(
        PCScreenFont {
            version: data.version,
            flags: data.flags,
            height: data.height,
            width: data.width,
            glyphs,
            unitable: Some(unitable),
        },
    )
}

/// Parses a byte vector into a [`PCScreenFont`]: the raw header parse of
/// [`parse_raw_pc_screen_font`] followed by the interpretation of
/// [`parse_pc_screen_font`]. Fails exactly when the magic number is
/// wrong.
pub fn parse_psfu(data: Vec<u8>) -> (r: Result<PCScreenFont, Error<'static>>)
    requires
        data@.len() >= 32,
        spec_u32_le(data@, 16) * spec_u32_le(data@, 20) <= data@.len() - 32,
    ensures
        r is Ok <==> spec_u32_le(data@, 0) == PSF_MAGIC,
        r matches Err(e) ==> e.spec_code() == ERR_INVALID_MAGIC,
{
    let data = parse_raw_pc_screen_font(data)?;
    parse_pc_screen_font(data)
}

} // verus!
