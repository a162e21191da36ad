//! What a console offers: writing, reading, and counts of both. A device may
//! offer any of the three.

use vstd::prelude::*;
use crate::bus::Poll;

verus! {

/// A console that can be written to. Each operation works one bus access at
/// a time: `None` for `reply` starts it, `Some` of what the last access
/// returned resumes it.
pub trait Write {
    /// Whether the console's count of characters written has room for one
    /// more. A console that does not count always has.
    open spec fn room_to_write(&self) -> bool {
        true
    }

    /// Writes one character.
    fn write_char(&mut self, c: char, reply: Option<u32>) -> Poll<()>
        requires
            old(self).room_to_write(),
    ;

    /// Writes the characters of a string, in order.
    fn write_str(&mut self, s: &str, reply: Option<u32>) -> Poll<()>
        requires
            old(self).room_to_write(),
    ;

    /// Waits until all that was written has left the device.
    fn flush(&mut self, reply: Option<u32>) -> Poll<()>;
}

/// A console that can be read from. Each operation works one bus access at
/// a time, as those of [`Write`] do.
pub trait Read {
    /// Whether the console's count of characters read has room for one more.
    /// A console that does not count always has.
    open spec fn room_to_read(&self) -> bool {
        true
    }

    /// Reads one character, waiting for it where none is there yet. A console
    /// that has nothing to read from keeps this version, which answers with a
    /// blank at once.
    fn read_char(&mut self, reply: Option<u32>) -> (out: Poll<char>)
        requires
            old(self).room_to_read(),
        default_ensures
            out == Poll::Ready(' '),
    {
        Poll::Ready(' ')
    }

    /// Discards what has come in and has not been read.
    fn clear_rx(&mut self, reply: Option<u32>) -> Poll<()>
        requires
            old(self).room_to_read(),
    ;
}

/// A console that counts. A console that does not keeps these versions,
/// which say zero.
pub trait Statistics {
    /// How many characters have been written.
    fn chars_written(&mut self) -> (count: usize)
        default_ensures
            count == 0,
    {
        0
    }

    /// How many characters have been read.
    fn chars_read(&mut self) -> (count: usize)
        default_ensures
            count == 0,
    {
        0
    }
}

/// A console that offers all three.
pub trait All: Write + Read + Statistics {

}

} // verus!
