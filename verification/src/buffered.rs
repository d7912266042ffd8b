//! The decisions of the buffered reader: translating caller-supplied
//! seek arguments, and deciding when line-by-line reading stops.

use vstd::prelude::*;

use crate::error::ErrorKind;

verus! {

/// Where a seek starts from, with its signed offset.
#[derive(Clone, Copy, Debug, PartialEq, Eq, Structural)]
pub enum SeekTarget {
    FromStart(i64),
    FromCurrent(i64),
    FromEnd(i64),
}

/// Translate a caller-supplied `(offset, whence)` pair: whence `0` seeks
/// from the start, `1` from the current position, `2` from the end; any
/// other whence is an input error.
pub fn seek_target(offset: i64, whence: usize) -> (r: Result<SeekTarget, ErrorKind>)
    ensures
        whence == 0 ==> r == Ok::<SeekTarget, ErrorKind>(SeekTarget::FromStart(offset)),
        whence == 1 ==> r == Ok::<SeekTarget, ErrorKind>(SeekTarget::FromCurrent(offset)),
        whence == 2 ==> r == Ok::<SeekTarget, ErrorKind>(SeekTarget::FromEnd(offset)),
        whence > 2 ==> r == Err::<SeekTarget, ErrorKind>(ErrorKind::Io),
{
    match whence {
        0 => Ok(SeekTarget::FromStart(offset)),
        1 => Ok(SeekTarget::FromCurrent(offset)),
        2 => Ok(SeekTarget::FromEnd(offset)),
        _ => Err(ErrorKind::Io),
    }
}

/// The stop decision of line-by-line reading with a byte-count hint: a
/// non-positive hint reads to the end of the source; a positive hint
/// stops once at least that many bytes have been read. Reading always
/// stops at the end of the source, reported as an empty read.
pub struct LineAggregator {
    hint: i64,
    byte_count: u64,
}

impl LineAggregator {
    /// The hint this aggregator was created with.
    pub closed spec fn hint(self) -> i64 {
        self.hint
    }

    /// How many bytes the lines noted so far held.
    pub closed spec fn bytes_read(self) -> u64 {
        self.byte_count
    }

    /// Start reading lines under the given hint.
    pub fn new(hint: i64) -> (r: LineAggregator)
        ensures
            r.hint() == hint,
            r.bytes_read() == 0,
    {
        LineAggregator { hint, byte_count: 0 }
    }

    /// Whether another line should be read.
    pub fn want_more(&self) -> (r: bool)
        ensures
            r == (self.hint() <= 0 || self.bytes_read() < self.hint()),
    {
        self.hint <= 0 || self.byte_count < self.hint as u64
    }

    /// Note one line of `n` bytes; the reading loop stops when the read
    /// came back empty, which signals the end of the source.
    pub fn note_line(&mut self, n: usize) -> (stop: bool)
        requires
            old(self).bytes_read() + n <= u64::MAX,
        ensures
            final(self).hint() == old(self).hint(),
            final(self).bytes_read() == old(self).bytes_read() + n,
            stop == (n == 0),
    {
        self.byte_count = self.byte_count + n as u64;
        n == 0
    }
}

} // verus!
