//! Downloading one file while it is read.
use vstd::prelude::*;

use crate::stream_buffer::{law_counts_add_up, BufferView, StreamBuffer};
use crate::text;

verus! {

/// The length that a header names, if it names one.
pub open spec fn named_length(header: Option<Seq<char>>) -> Option<nat> {
    match header {
        Some(value) => text::number(value, u64::MAX as nat),
        None => None,
    }
}

/// The buffer once a server has answered.
pub open spec fn answered(buffer: BufferView, header: Option<Seq<char>>) -> BufferView {
    match named_length(header) {
        Some(len) => BufferView { total_len: len as u64, ..buffer },
        None => buffer,
    }
}

/// A piece of the file is taken: it is not empty, and the download goes on.
pub open spec fn takes(buffer: BufferView, bytes: Seq<u8>) -> bool {
    bytes.len() > 0 && !buffer.cancelled
}

/// The buffer at the end of the download of so many bytes: where no length was named, it is their
/// number.
pub open spec fn finished(buffer: BufferView, received: nat) -> BufferView {
    BufferView {
        total_len: if buffer.total_len == 0 {
            received as u64
        } else {
            buffer.total_len
        },
        eos: true,
        ..buffer
    }
}

/// The download of a file.
#[derive(Clone, Copy, Debug, PartialEq, Eq, Structural)]
pub struct DirectDownload {
    /// How many bytes were received.
    pub received: usize,
}

impl DirectDownload {
    /// The download begins, with the header that names the length of the file, where there is one.
    pub fn start(buffer: &mut StreamBuffer, content_length: Option<&str>) -> (r: DirectDownload)
        ensures
            r == (DirectDownload { received: 0 }),
            final(buffer)@ == answered(
                old(buffer)@,
                match content_length {
                    Some(value) => Some(value@),
                    None => None,
                },
            ),
    {
        if let Some(value) = content_length {
            let cs: Vec<char> = text::chars_of(value);
            if let Some(len) = text::parse_number(cs.as_slice(), u64::MAX) {
                buffer.set_total_len(len);
            }
        }
        DirectDownload { received: 0 }
    }

    /// Takes the next piece of the file. The result says whether the download goes on: it ends with
    /// an empty piece, and when it is cancelled.
    pub fn on_chunk(&mut self, buffer: &mut StreamBuffer, bytes: &[u8]) -> (r: bool)
        requires
            old(self).received + bytes@.len() <= usize::MAX,
        ensures
            r == takes(old(buffer)@, bytes@),
            r ==> final(buffer)@ == old(buffer)@.pushed(bytes@),
            r ==> final(self).received == old(self).received + bytes@.len(),
            !r ==> final(buffer)@ == old(buffer)@ && *final(self) == *old(self),
    {
        if bytes.len() == 0 || buffer.is_cancelled() {
            return false;
        }
        buffer.push(bytes);
        self.received = self.received + bytes.len();
        true
    }

    /// The download has ended.
    pub fn finish(&self, buffer: &mut StreamBuffer)
        ensures
            final(buffer)@ == finished(old(buffer)@, self.received as nat),
    {
        if buffer.get_total_len() == 0 {
            buffer.set_total_len(self.received as u64);
        }
        buffer.set_eos();
    }

    /// The file cannot be had: the buffer says at which address, and why.
    pub fn fail(buffer: &mut StreamBuffer, url: &str, reason: &str)
        ensures
            final(buffer)@ == old(buffer)@.failed(url@ + ": "@ + reason@),
    {
        let mut cs: Vec<char> = text::chars_of(url);
        text::push_str(&mut cs, ": ");
        text::push_str(&mut cs, reason);
        assert(cs@ =~= url@ + ": "@ + reason@);
        let message: String = text::string_of(cs.as_slice());
        buffer.set_error(message);
    }
}

// ---------------------------------------------------------------------------------------------
// Laws
// ---------------------------------------------------------------------------------------------

/// All pieces, one behind the other.
pub open spec fn in_a_row(pieces: Seq<Seq<u8>>) -> Seq<u8>
    decreases pieces.len(),
{
    if pieces.len() == 0 {
        Seq::empty()
    } else {
        in_a_row(pieces.drop_last()) + pieces.last()
    }
}

/// The buffer once all pieces were taken.
pub open spec fn filled(buffer: BufferView, pieces: Seq<Seq<u8>>) -> BufferView
    decreases pieces.len(),
{
    if pieces.len() == 0 {
        buffer
    } else {
        filled(buffer, pieces.drop_last()).pushed(pieces.last())
    }
}

/// A download that is not disturbed leaves the file in the buffer, byte by byte, marked as complete
/// and with its length: the one that the server named, or else the number of bytes that came.
pub proof fn law_download_is_complete(header: Option<Seq<char>>, pieces: Seq<Seq<u8>>)
    ensures
        ({
            let start = answered(BufferView::fresh(), header);
            let file = in_a_row(pieces);
            let end = finished(filled(start, pieces), file.len());
            &&& end.data == file
            &&& end.eos
            &&& !end.error
            &&& end.total_len == (match named_length(header) {
                Some(len) => if len > 0 {
                    len as u64
                } else {
                    file.len() as u64
                },
                None => file.len() as u64,
            })
        }),
{
    lemma_filled(answered(BufferView::fresh(), header), pieces);
    assert(Seq::<u8>::empty() + in_a_row(pieces) =~= in_a_row(pieces));
}

/// Pieces are added to what a buffer holds and change nothing else.
proof fn lemma_filled(buffer: BufferView, pieces: Seq<Seq<u8>>)
    ensures
        filled(buffer, pieces) == buffer.pushed(in_a_row(pieces)),
    decreases pieces.len(),
{
    if pieces.len() == 0 {
        law_counts_add_up(buffer.written, 0, 0);
        assert(filled(buffer, pieces) =~= buffer.pushed(in_a_row(pieces)));
    } else {
        lemma_filled(buffer, pieces.drop_last());
        law_counts_add_up(
            buffer.written,
            in_a_row(pieces.drop_last()).len(),
            pieces.last().len(),
        );
        assert(filled(buffer, pieces) =~= buffer.pushed(in_a_row(pieces)));
    }
}

/// The length of a file is the number that the header says, read whole, and is not known where there
/// is no header or no number in it. The answer changes nothing else.
pub proof fn law_length_is_read_back(buffer: BufferView, n: nat, value: Seq<char>)
    requires
        n <= u64::MAX,
    ensures
        answered(buffer, Some(text::decimal(n))) == (BufferView { total_len: n as u64, ..buffer }),
        text::number(value, u64::MAX as nat) is None ==> answered(buffer, Some(value)) == buffer,
        answered(buffer, None) == buffer,
{
    text::law_decimal_reads_back(n, u64::MAX as nat);
}

/// Pieces are taken until one is empty or the download was cancelled, and no longer.
pub proof fn law_pieces_are_taken_until_cancelled(buffer: BufferView, bytes: Seq<u8>)
    ensures
        takes(buffer, bytes) ==> bytes.len() > 0 && !buffer.cancelled,
        bytes.len() > 0 && !buffer.cancelled ==> takes(buffer, bytes),
        takes(buffer, bytes) ==> takes(buffer.pushed(bytes), bytes),
{
}

/// A download that has ended is marked so and keeps what it brought. Its length is the one that was
/// named, and the number of bytes that came only where none was.
pub proof fn law_named_length_is_kept(buffer: BufferView, received: nat)
    requires
        received <= u64::MAX,
    ensures
        finished(buffer, received) == (BufferView {
            total_len: finished(buffer, received).total_len,
            eos: true,
            ..buffer
        }),
        buffer.total_len > 0 ==> finished(buffer, received).total_len == buffer.total_len,
        buffer.total_len == 0 ==> finished(buffer, received).total_len == received,
{
}

/// The pieces of a file stand in the buffer one behind the other, all of them whole.
pub proof fn law_pieces_stand_in_a_row(buffer: BufferView, pieces: Seq<Seq<u8>>)
    ensures
        in_a_row(pieces) == pieces.flatten(),
        filled(buffer, pieces).data == buffer.data + pieces.flatten(),
    decreases pieces.len(),
{
    pieces.lemma_flatten_and_flatten_alt_are_equivalent();
    lemma_filled(buffer, pieces);
    if pieces.len() > 0 {
        law_pieces_stand_in_a_row(buffer, pieces.drop_last());
        pieces.drop_last().lemma_flatten_and_flatten_alt_are_equivalent();
    }
}

} // verus!
