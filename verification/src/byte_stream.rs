//! A stream of bytes over a stream buffer, as a media framework reads it: with a current position,
//! which reads move on and seeks set.
use vstd::prelude::*;

use crate::stream_buffer::bytes_at;
use crate::stream_buffer::StreamBuffer;
use crate::units;

verus! {

/// Why a seek is refused.
#[derive(Clone, Copy, Debug, PartialEq, Eq, Structural)]
pub enum SeekError {
    /// It leads before the start of the stream.
    BeforeStart,
}

/// A stream of bytes over a stream buffer.
pub struct SnekByteStream {
    /// The current position.
    pub pos: u64,
    /// How many bytes the last asynchronous read gave.
    pub last_read_count: u32,
}

/// The position from which a seek counts: 0 stands for the start, 1 for the current position, any
/// other number for the end, which is that of the file where its length is known and else that of
/// the bytes that are there.
pub open spec fn seek_base(origin: i32, pos: u64, total_len: u64, written: int) -> int {
    if origin == 0 {
        0
    } else if origin == 1 {
        units::signed(pos)
    } else if total_len > 0 {
        units::signed(total_len)
    } else {
        units::signed(written as u64)
    }
}

impl SnekByteStream {
    /// A stream at its start.
    pub fn new() -> (r: SnekByteStream)
        ensures
            r.pos == 0,
            r.last_read_count == 0,
    {
        SnekByteStream { pos: 0, last_read_count: 0 }
    }

    /// The length of the stream, the largest number where it is not known.
    pub fn get_length(&self, buffer: &StreamBuffer) -> (r: u64)
        ensures
            r == (if buffer@.total_len > 0 {
                buffer@.total_len
            } else {
                u64::MAX
            }),
    {
        let len: u64 = buffer.get_total_len();
        if len > 0 {
            len
        } else {
            u64::MAX
        }
    }

    /// Sets the current position.
    pub fn set_current_position(&mut self, position: u64)
        ensures
            final(self).pos == position,
            final(self).last_read_count == old(self).last_read_count,
    {
        self.pos = position;
    }

    /// The current position.
    pub fn get_current_position(&self) -> (r: u64)
        ensures
            r == self.pos,
    {
        self.pos
    }

    /// The current position as an offset into the buffer.
    pub fn offset(&self) -> (r: usize)
        ensures
            r == self.pos as usize,
    {
        #[verifier::truncate]
        (self.pos as usize)
    }

    /// Whether the current position is at the end of a stream that has ended.
    pub fn is_end_of_stream(&self, buffer: &StreamBuffer) -> (r: bool)
        ensures
            r == (buffer@.eos && self.pos as usize >= buffer@.data.len()),
    {
        buffer.is_eos() && self.offset() >= buffer.bytes_held()
    }

    /// Reads at the current position and moves it on by what was read.
    pub fn read(&mut self, buffer: &StreamBuffer, out: &mut [u8]) -> (n: u32)
        requires
            old(out)@.len() <= u32::MAX,
        ensures
            ({
                let got = bytes_at(
                    buffer@.data,
                    (old(self).pos as usize) as int,
                    old(out)@.len() as int,
                );
                &&& n == got.len()
                &&& final(out)@ == got + old(out)@.skip(got.len() as int)
                &&& final(self).pos == (if old(self).pos + got.len() <= u64::MAX {
                    old(self).pos + got.len()
                } else {
                    old(self).pos + got.len() - 0x1_0000_0000_0000_0000
                })
            }),
            final(self).last_read_count == old(self).last_read_count,
    {
        let got: usize = buffer.read_at(self.offset(), out);
        self.pos = self.pos.wrapping_add(got as u64);
        got as u32
    }

    /// Begins an asynchronous read: reads as `read` does and keeps the number of bytes.
    pub fn begin_read(&mut self, buffer: &StreamBuffer, out: &mut [u8])
        requires
            old(out)@.len() <= u32::MAX,
        ensures
            ({
                let got = bytes_at(
                    buffer@.data,
                    (old(self).pos as usize) as int,
                    old(out)@.len() as int,
                );
                &&& final(self).last_read_count == got.len()
                &&& final(out)@ == got + old(out)@.skip(got.len() as int)
                &&& final(self).pos == (if old(self).pos + got.len() <= u64::MAX {
                    old(self).pos + got.len()
                } else {
                    old(self).pos + got.len() - 0x1_0000_0000_0000_0000
                })
            }),
    {
        let n: u32 = self.read(buffer, out);
        self.last_read_count = n;
    }

    /// Ends an asynchronous read: how many bytes it gave.
    pub fn end_read(&self) -> (n: u32)
        ensures
            n == self.last_read_count,
    {
        self.last_read_count
    }

    /// Whether the position that a seek leads to is one of a machine integer.
    pub fn seek_fits(&self, buffer: &StreamBuffer, origin: i32, offset: i64) -> (r: bool)
        ensures
            r == (i64::MIN <= seek_base(
                origin,
                self.pos,
                buffer@.total_len,
                buffer@.data.len() as int,
            ) + offset <= i64::MAX),
    {
        let base: i64 = self.base_of(buffer, origin);
        let sum: i128 = base as i128 + offset as i128;
        i64::MIN as i128 <= sum && sum <= i64::MAX as i128
    }

    fn base_of(&self, buffer: &StreamBuffer, origin: i32) -> (r: i64)
        ensures
            r == seek_base(origin, self.pos, buffer@.total_len, buffer@.data.len() as int),
    {
        if origin == 0 {
            0
        } else if origin == 1 {
            units::to_signed(self.pos)
        } else {
            let len: u64 = buffer.get_total_len();
            if len > 0 {
                units::to_signed(len)
            } else {
                units::to_signed(buffer.bytes_held() as u64)
            }
        }
    }

    /// Moves the current position to `offset` from where `origin` says.
    pub fn seek(&mut self, buffer: &StreamBuffer, origin: i32, offset: i64) -> (r: Result<
        u64,
        SeekError,
    >)
        requires
            i64::MIN <= seek_base(
                origin,
                old(self).pos,
                buffer@.total_len,
                buffer@.data.len() as int,
            ) + offset <= i64::MAX,
        ensures
            ({
                let target = seek_base(
                    origin,
                    old(self).pos,
                    buffer@.total_len,
                    buffer@.data.len() as int,
                ) + offset;
                &&& r is Err <==> target < 0
                &&& r matches Ok(p) ==> p == target && final(self).pos == target
                &&& r is Err ==> final(self).pos == old(self).pos
            }),
            final(self).last_read_count == old(self).last_read_count,
    {
        let target: i64 = self.base_of(buffer, origin) + offset;
        if target < 0 {
            return Err(SeekError::BeforeStart);
        }
        self.pos = target as u64;
        Ok(self.pos)
    }
}

/// A seek from the start leads to the same position from wherever the stream is.
pub proof fn law_absolute_seek_forgets_the_position(
    pos: u64,
    other: u64,
    total_len: u64,
    written: int,
    offset: i64,
)
    ensures
        seek_base(0, pos, total_len, written) + offset == offset,
        seek_base(0, pos, total_len, written) == seek_base(0, other, total_len, written),
{
}

/// A relative seek back undoes a relative seek.
pub proof fn law_relative_seek_is_undone(pos: u64, offset: i64, total_len: u64, written: int)
    requires
        pos <= i64::MAX,
        0 <= pos + offset <= i64::MAX,
    ensures
        ({
            let there = (seek_base(1, pos, total_len, written) + offset) as u64;
            seek_base(1, there, total_len, written) - offset == pos
        }),
{
}

/// A seek counts from the start of the stream, from the current position, or, for any other origin,
/// from the end: the length of the stream where it is known, else the bytes that are there.
pub proof fn law_seek_counts_from_its_origin(
    origin: i32,
    pos: u64,
    total_len: u64,
    written: int,
    offset: i64,
)
    requires
        pos <= i64::MAX,
        total_len <= i64::MAX,
        0 <= written <= i64::MAX,
    ensures
        seek_base(1, pos, total_len, written) + offset == pos + offset,
        origin != 0 && origin != 1 && total_len > 0 ==> seek_base(origin, pos, total_len, written)
            + offset == total_len + offset,
        origin != 0 && origin != 1 && total_len == 0 ==> seek_base(origin, pos, total_len, written)
            + offset == written + offset,
{
}

} // verus!
