//! Stuff related to errors.

use vstd::prelude::*;
use vstd::string::StringSliceAdditionalSpecFns;

use crate::display::{COLOR_DEFAULT, TextDisplay, lemma_write_bytes_pos_bound, write_bytes};
use crate::util::i16_as_u8_slice;

verus! {

/// An error: a human-readable message and a numeric code. Failures are
/// local and recoverable; the caller decides whether one is fatal.
#[derive(Clone, Copy, Debug)]
pub struct Error<'a> {
    message: &'a str,
    code: i16,
}

impl<'a> Error<'a> {
    /// The numeric code of the error, in spec position.
    pub closed spec fn spec_code(&self) -> i16 {
        self.code
    }

    /// The message of the error, in spec position.
    pub closed spec fn spec_message(&self) -> Seq<char> {
        self.message@
    }

    /// Creates a new error.
    pub fn new(message: &'a str, code: i16) -> (e: Self)
        ensures
            e.spec_message() == message@,
            e.spec_code() == code,
    {
        Error { message, code }
    }

    /// The numeric code of the error.
    pub fn code(&self) -> (c: i16)
        ensures
            c == self.spec_code(),
    {
        self.code
    }

    /// The message of the error.
    pub fn message(&self) -> (m: &'a str)
        ensures
            m@ == self.spec_message(),
    {
        self.message
    }

    /// The UTF-8 bytes of the error's message, in spec position.
    pub closed spec fn spec_message_bytes(&self) -> Seq<u8> {
        self.message.spec_bytes()
    }

    /// Display the contents of the error on a [`TextDisplay`] with no
    /// prefix: the code's decimal text, a separating colon, and the
    /// message, written from the screen's origin. The first failing
    /// write is handed back.
    pub fn display_np<T: TextDisplay>(&self, display: &T) -> (r: Result<(), Error<'static>>)
        requires
            self.spec_code() != i16::MIN,
            display.spec_size().0 >= 1,
            display.spec_size().0 < u32::MAX,
            self.spec_message_bytes().len() + 8 <= u32::MAX,
    {
        let ghost w = display.spec_size().0 as int;
        let code_text = i16_as_u8_slice(self.code);
        let pos = write_bytes(display, (0, 0), code_text.as_slice(), COLOR_DEFAULT)?;
        proof {
            lemma_write_bytes_pos_bound(0, 0, code_text@, w);
        }
        let sep: [u8; 2] = [58u8, 32u8];
        let pos2 = write_bytes(display, pos, sep.as_slice(), COLOR_DEFAULT)?;
        proof {
            lemma_write_bytes_pos_bound(pos.0 as int, pos.1 as int, sep@, w);
        }
        let msg = self.message.as_bytes();
        write_bytes(display, pos2, msg, COLOR_DEFAULT)?;
        Ok(())
    }
}

} // verus!
