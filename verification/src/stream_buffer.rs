//! A random access streaming buffer.
//!
//! All data that is pushed in is retained in one row of bytes, so that a reader may go back: the
//! demuxer of MP4 needs that. One thread fills the buffer while another reads it; whoever shares it
//! holds it behind a lock.
use vstd::prelude::*;
use vstd::hash_map::StringHashMap;


verus! {

/// What a stream buffer holds.
#[verifier::ext_equal]
pub struct BufferView {
    /// The bytes that were pushed since the last seek.
    pub data: Seq<u8>,
    /// How many bytes were ever pushed, modulo the size of the counter.
    pub written: usize,
    /// The message of the last error.
    pub error_msg: Seq<char>,
    /// The segments that were kept, by their address.
    pub cache: Map<Seq<char>, Seq<u8>>,
    /// No more bytes will come.
    pub eos: bool,
    /// The download failed.
    pub error: bool,
    /// The bytes are MPEG-TS.
    pub is_ts: bool,
    /// The length of the whole file, 0 where it is not known.
    pub total_len: u64,
    /// The duration of the stream, 0 where it is not known.
    pub duration_ms: u64,
    /// The position to which a seek was requested.
    pub seek: Option<u64>,
    /// How many segments there are to download.
    pub total_segments: u64,
    /// How many of them were downloaded.
    pub downloaded_segments: u64,
    /// All data is there.
    pub prefetched: bool,
    /// The download is to stop.
    pub cancelled: bool,
}

/// The bytes that a read of at most `len` bytes at `offset` gives.
pub open spec fn bytes_at(data: Seq<u8>, offset: int, len: int) -> Seq<u8> {
    if offset >= data.len() {
        Seq::empty()
    } else if offset + len <= data.len() {
        data.subrange(offset, offset + len)
    } else {
        data.skip(offset)
    }
}

/// A count of bytes once more bytes came; it wraps where it would be too large for its counter.
pub open spec fn counted(written: usize, more: nat) -> usize {
    ((written + more) % (usize::MAX + 1)) as usize
}

impl BufferView {
    /// A new buffer.
    pub open spec fn fresh() -> BufferView {
        BufferView {
            data: Seq::empty(),
            written: 0,
            error_msg: Seq::empty(),
            cache: Map::empty(),
            eos: false,
            error: false,
            is_ts: false,
            total_len: 0,
            duration_ms: 0,
            seek: None,
            total_segments: 0,
            downloaded_segments: 0,
            prefetched: false,
            cancelled: false,
        }
    }

    /// The buffer once more bytes were pushed.
    pub open spec fn pushed(self, bytes: Seq<u8>) -> BufferView {
        BufferView {
            data: self.data + bytes,
            written: counted(self.written, bytes.len()),
            ..self
        }
    }

    /// The buffer once a seek was requested: empty, and open for new bytes.
    pub open spec fn seek_requested(self, ms: u64) -> BufferView {
        BufferView {
            data: Seq::empty(),
            eos: false,
            seek: if ms == u64::MAX {
                None
            } else {
                Some(ms)
            },
            ..self
        }
    }

    /// The buffer once the requested seek was taken.
    pub open spec fn seek_taken(self) -> BufferView {
        BufferView { seek: None, ..self }
    }

    /// The buffer once a segment was kept.
    pub open spec fn cached(self, key: Seq<char>, bytes: Seq<u8>) -> BufferView {
        BufferView { cache: self.cache.insert(key, bytes), ..self }
    }

    /// The segment that was kept under an address.
    pub open spec fn cache_entry(self, key: Seq<char>) -> Option<Seq<u8>> {
        if self.cache.contains_key(key) {
            Some(self.cache[key])
        } else {
            None
        }
    }

    /// The buffer once its end was marked.
    pub open spec fn ended(self) -> BufferView {
        BufferView { eos: true, ..self }
    }

    /// The buffer once the download failed.
    pub open spec fn failed(self, msg: Seq<char>) -> BufferView {
        BufferView { error_msg: msg, error: true, eos: true, ..self }
    }

    /// A read at `offset` has nothing to give yet, and something may still come.
    pub open spec fn awaits(self, offset: int) -> bool {
        self.data.len() <= offset && !self.eos
    }
}

/// What a reader does next.
#[derive(Clone, Copy, Debug, PartialEq, Eq, Structural)]
pub enum ReadStep {
    /// It reads what is there.
    Read,
    /// It waits for more bytes.
    Wait,
    /// It has waited long enough and gets nothing.
    GiveUp,
}

/// A random access streaming buffer.
pub struct StreamBuffer {
    data: Vec<u8>,
    written: usize,
    error_msg: String,
    segment_cache: StringHashMap<Vec<u8>>,
    eos: bool,
    error: bool,
    ts: bool,
    total_len: u64,
    duration_ms: u64,
    // The requested seek position, u64::MAX where there is none.
    seek_ms: u64,
    total_segments: u64,
    downloaded_segments: u64,
    prefetched: bool,
    cancelled: bool,
}

impl View for StreamBuffer {
    type V = BufferView;

    closed spec fn view(&self) -> BufferView {
        BufferView {
            data: self.data@,
            written: self.written,
            error_msg: self.error_msg@,
            cache: self.segment_cache@.map_values(|v: Vec<u8>| v@),
            eos: self.eos,
            error: self.error,
            is_ts: self.ts,
            total_len: self.total_len,
            duration_ms: self.duration_ms,
            seek: if self.seek_ms == u64::MAX {
                None
            } else {
                Some(self.seek_ms)
            },
            total_segments: self.total_segments,
            downloaded_segments: self.downloaded_segments,
            prefetched: self.prefetched,
            cancelled: self.cancelled,
        }
    }
}

impl StreamBuffer {
    /// An empty buffer.
    pub fn new() -> (r: StreamBuffer)
        ensures
            r@ == BufferView::fresh(),
    {
        let r: StreamBuffer = StreamBuffer {
            data: Vec::with_capacity(256 * 1024),
            written: 0,
            error_msg: String::new(),
            segment_cache: StringHashMap::new(),
            eos: false,
            error: false,
            ts: false,
            total_len: 0,
            duration_ms: 0,
            seek_ms: u64::MAX,
            total_segments: 0,
            downloaded_segments: 0,
            prefetched: false,
            cancelled: false,
        };
        assert(r@.cache =~= Map::empty());
        r
    }

    /// How much of the download is done.
    pub fn download_progress(&self) -> (r: Progress)
        ensures
            r == progress_of(self@.downloaded_segments, self@.total_segments),
    {
        progress(self.downloaded_segments, self.total_segments)
    }

    /// Whether all data is there.
    pub fn is_prefetched(&self) -> (r: bool)
        ensures
            r == self@.prefetched,
    {
        self.prefetched
    }

    /// Marks that all data is there, or that it is not.
    pub fn set_prefetched(&mut self, val: bool)
        ensures
            final(self)@ == (BufferView { prefetched: val, ..old(self)@ }),
    {
        self.prefetched = val;
    }

    /// Sets how many segments there are and how many of them were downloaded.
    pub fn set_segments(&mut self, downloaded: u64, total: u64)
        ensures
            final(self)@ == (BufferView {
                downloaded_segments: downloaded,
                total_segments: total,
                ..old(self)@
            }),
    {
        self.downloaded_segments = downloaded;
        self.total_segments = total;
    }

    /// Tells the download to stop.
    pub fn cancel(&mut self)
        ensures
            final(self)@ == (BufferView { cancelled: true, ..old(self)@ }),
    {
        self.cancelled = true;
    }

    /// Whether the download is to stop.
    pub fn is_cancelled(&self) -> (r: bool)
        ensures
            r == self@.cancelled,
    {
        self.cancelled
    }

    /// Sets the duration of the stream.
    pub fn set_duration_ms(&mut self, dur: u64)
        ensures
            final(self)@ == (BufferView { duration_ms: dur, ..old(self)@ }),
    {
        self.duration_ms = dur;
    }

    /// The duration of the stream, 0 where it is not known.
    pub fn get_duration_ms(&self) -> (r: u64)
        ensures
            r == self@.duration_ms,
    {
        self.duration_ms
    }

    /// Sets the length of the whole file.
    pub fn set_total_len(&mut self, len: u64)
        ensures
            final(self)@ == (BufferView { total_len: len, ..old(self)@ }),
    {
        self.total_len = len;
    }

    /// The length of the whole file, 0 where it is not known.
    pub fn get_total_len(&self) -> (r: u64)
        ensures
            r == self@.total_len,
    {
        self.total_len
    }

    /// Sets whether the bytes are MPEG-TS.
    pub fn set_is_ts(&mut self, val: bool)
        ensures
            final(self)@ == (BufferView { is_ts: val, ..old(self)@ }),
    {
        self.ts = val;
    }

    /// Whether the bytes are MPEG-TS.
    pub fn is_ts(&self) -> (r: bool)
        ensures
            r == self@.is_ts,
    {
        self.ts
    }

    /// Requests a seek: the bytes that are there are dropped, and new ones may come.
    pub fn request_seek(&mut self, ms: u64)
        ensures
            final(self)@ == old(self)@.seek_requested(ms),
    {
        self.seek_ms = ms;
        self.data.clear();
        self.eos = false;
    }

    /// Takes the requested seek, if there is one.
    pub fn take_seek_request(&mut self) -> (r: Option<u64>)
        ensures
            r == old(self)@.seek,
            final(self)@ == old(self)@.seek_taken(),
    {
        let val: u64 = self.seek_ms;
        self.seek_ms = u64::MAX;
        if val == u64::MAX {
            None
        } else {
            Some(val)
        }
    }

    /// Puts bytes behind those that are there.
    pub fn push(&mut self, bytes: &[u8])
        ensures
            final(self)@ == old(self)@.pushed(bytes@),
    {
        let n: usize = bytes.len();
        self.data.extend_from_slice(bytes);
        self.written = self.written.wrapping_add(n);
        assert(self.data@ =~= old(self).data@ + bytes@);
    }

    /// The segment that was kept under an address.
    pub fn cache_get(&self, key: &str) -> (r: Option<Vec<u8>>)
        ensures
            r is Some <==> self@.cache_entry(key@) is Some,
            r matches Some(bytes) ==> self@.cache_entry(key@) == Some(bytes@),
    {
        match self.segment_cache.get(key) {
            Some(bytes) => {
                let copy: Vec<u8> = bytes.clone();
                assert(copy@ =~= bytes@);
                Some(copy)
            },
            None => None,
        }
    }

    /// Keeps a segment under its address.
    pub fn cache_put(&mut self, key: String, data: Vec<u8>)
        ensures
            final(self)@ == old(self)@.cached(key@, data@),
    {
        self.segment_cache.insert(key, data);
        assert(self@.cache =~= old(self)@.cache.insert(key@, data@));
    }

    /// Marks that no more bytes will come.
    pub fn set_eos(&mut self)
        ensures
            final(self)@ == old(self)@.ended(),
    {
        self.eos = true;
    }

    /// Whether no more bytes will come.
    pub fn is_eos(&self) -> (r: bool)
        ensures
            r == self@.eos,
    {
        self.eos
    }

    /// Marks that the download failed, which also ends the stream.
    pub fn set_error(&mut self, msg: String)
        ensures
            final(self)@ == old(self)@.failed(msg@),
    {
        self.error_msg = msg;
        self.error = true;
        self.eos = true;
    }

    /// Whether the download failed.
    pub fn has_error(&self) -> (r: bool)
        ensures
            r == self@.error,
    {
        self.error
    }

    /// The message of the last error.
    pub fn error_msg(&self) -> (r: String)
        ensures
            r@ == self@.error_msg,
    {
        self.error_msg.clone()
    }

    /// Total bytes written into the buffer so far, those that a seek has dropped among them.
    pub fn total_written(&self) -> (r: usize)
        ensures
            r == self@.written,
    {
        self.written
    }

    /// How many bytes the buffer holds: those that were written since the last seek.
    pub fn bytes_held(&self) -> (r: usize)
        ensures
            r == self@.data.len(),
    {
        self.data.len()
    }

    /// What a reader at `offset` does next; `expired` says that it has waited long enough.
    pub fn read_step(&self, offset: usize, expired: bool) -> (r: ReadStep)
        ensures
            r == (if !self@.awaits(offset as int) {
                ReadStep::Read
            } else if expired {
                ReadStep::GiveUp
            } else {
                ReadStep::Wait
            }),
    {
        if self.data.len() > offset || self.eos {
            ReadStep::Read
        } else if expired {
            ReadStep::GiveUp
        } else {
            ReadStep::Wait
        }
    }

    /// Copies the bytes at `offset` into `buf`, as many as there are and fit, and gives their number.
    pub fn read_at(&self, offset: usize, buf: &mut [u8]) -> (n: usize)
        ensures
            n == bytes_at(self@.data, offset as int, old(buf)@.len() as int).len(),
            final(buf)@ == bytes_at(self@.data, offset as int, old(buf)@.len() as int) + old(
                buf,
            )@.skip(n as int),
    {
        let total: usize = self.data.len();
        if total <= offset {
            assert(old(buf)@ =~= Seq::<u8>::empty() + old(buf)@.skip(0));
            return 0;
        }
        let avail: usize = total - offset;
        let size: usize = buf.len();
        let n: usize = if size < avail {
            size
        } else {
            avail
        };
        let mut i: usize = 0;
        while i < n
            invariant
                i <= n,
                n <= size,
                n <= total - offset,
                offset < total,
                total == self.data@.len(),
                size == buf@.len(),
                buf@ == self.data@.subrange(offset as int, offset + i) + old(buf)@.skip(i as int),
                old(buf)@.len() == size,
            decreases n - i,
        {
            buf[i] = self.data[offset + i];
            i = i + 1;
            assert(buf@ =~= self.data@.subrange(offset as int, offset + i) + old(buf)@.skip(
                i as int,
            ));
        }
        n
    }
}

/// How much of a task is done.
#[derive(Clone, Copy, Debug, PartialEq, Eq, Structural)]
pub struct Progress {
    /// The part that is done.
    pub done: u64,
    /// The whole.
    pub whole: u64,
}

/// The part `done` of `total`, never more than the whole, and nothing of a task without parts.
pub open spec fn progress_of(done: u64, total: u64) -> Progress {
    if total == 0 {
        Progress { done: 0, whole: 1 }
    } else if done < total {
        Progress { done, whole: total }
    } else {
        Progress { done: total, whole: total }
    }
}

/// The part `done` of `total`.
pub fn progress(done: u64, total: u64) -> (r: Progress)
    ensures
        r == progress_of(done, total),
{
    if total == 0 {
        Progress { done: 0, whole: 1 }
    } else if done < total {
        Progress { done, whole: total }
    } else {
        Progress { done: total, whole: total }
    }
}

/// Progress lies between nothing and the whole, and the whole is never zero.
pub proof fn law_progress_is_a_fraction(done: u64, total: u64)
    ensures
        0 < progress_of(done, total).whole,
        progress_of(done, total).done <= progress_of(done, total).whole,
{
}

// ---------------------------------------------------------------------------------------------
// Laws
// ---------------------------------------------------------------------------------------------

/// A read gives back what was written: at the offset at which bytes were pushed, a read of their
/// length gives those bytes.
pub proof fn law_read_gives_back_the_push(b: BufferView, bytes: Seq<u8>)
    ensures
        bytes_at(b.pushed(bytes).data, b.data.len() as int, bytes.len() as int) == bytes,
{
    let data = b.pushed(bytes).data;
    if bytes.len() > 0 {
        assert(data.subrange(b.data.len() as int, data.len() as int) =~= bytes);
    }
}

/// Bytes that are there stay where they are: a read that was served in full before a push is served
/// the same after it, so that a reader may go back at any time.
pub proof fn law_push_keeps_earlier_bytes(b: BufferView, bytes: Seq<u8>, offset: int, len: int)
    requires
        0 <= offset,
        0 <= len,
        offset + len <= b.data.len(),
    ensures
        bytes_at(b.pushed(bytes).data, offset, len) == bytes_at(b.data, offset, len),
{
    let data = b.pushed(bytes).data;
    if offset < b.data.len() {
        assert(data.subrange(offset, offset + len) =~= b.data.subrange(offset, offset + len));
    } else {
        assert(len == 0);
        if offset < data.len() {
            assert(data.subrange(offset, offset) =~= Seq::<u8>::empty());
        }
    }
}

/// Reading in two steps is reading in one: the second read goes on where the first one ended.
pub proof fn law_reads_chain(data: Seq<u8>, offset: int, a: int, b: int)
    requires
        0 <= offset,
        0 <= a,
        0 <= b,
    ensures
        bytes_at(data, offset, a) + bytes_at(data, offset + bytes_at(data, offset, a).len(), b)
            == bytes_at(data, offset, a + b),
{
    if offset < data.len() {
        let first = bytes_at(data, offset, a);
        let rest = bytes_at(data, offset + first.len(), b);
        assert(first + rest =~= bytes_at(data, offset, a + b));
    }
}

/// Counting bytes one after the other gives the same as counting them together; a count that fits its
/// counter is exact.
pub proof fn law_counts_add_up(written: usize, a: nat, b: nat)
    ensures
        counted(counted(written, a), b) == counted(written, a + b),
        written + a <= usize::MAX ==> counted(written, a) == written + a,
{
    let m = usize::MAX + 1;
    vstd::arithmetic::div_mod::lemma_add_mod_noop_right(b as int, written + a, m);
    vstd::arithmetic::div_mod::lemma_mod_bound(written + a, m);
    if written + a <= usize::MAX {
        vstd::arithmetic::div_mod::lemma_small_mod((written + a) as nat, m as nat);
    }
}

/// The total counts every byte that was pushed, before a seek and after it, where the counter does
/// not wrap.
pub proof fn law_total_outlives_seeks(b: BufferView, before: Seq<u8>, ms: u64, after: Seq<u8>)
    requires
        b.written + before.len() + after.len() <= usize::MAX,
    ensures
        b.pushed(before).seek_requested(ms).pushed(after).written == b.written + before.len()
            + after.len(),
        b.pushed(before).seek_requested(ms).pushed(after).data == after,
{
    assert(Seq::<u8>::empty() + after =~= after);
    law_counts_add_up(b.written, before.len(), after.len());
    law_counts_add_up(b.written, before.len() + after.len(), 0);
}

/// A requested seek is taken once: the next taker gets its position, the one after that gets
/// nothing. The largest position stands for no request and is never handed out.
pub proof fn law_seek_is_taken_once(b: BufferView, ms: u64)
    requires
        ms != u64::MAX,
    ensures
        b.seek_requested(ms).seek == Some(ms),
        b.seek_requested(ms).seek_taken().seek is None,
{
}

/// Of two requested seeks only the later one is handed out.
pub proof fn law_later_seek_wins(b: BufferView, first: u64, second: u64)
    ensures
        b.seek_requested(first).seek_requested(second) == b.seek_requested(second),
{
}

/// A segment that was kept is found under its address, and no other address is touched.
pub proof fn law_cache_finds_what_was_kept(
    b: BufferView,
    key: Seq<char>,
    bytes: Seq<u8>,
    other: Seq<char>,
)
    ensures
        b.cached(key, bytes).cache_entry(key) == Some(bytes),
        other != key ==> b.cached(key, bytes).cache_entry(other) == b.cache_entry(other),
{
}

/// The cache outlives a seek and every push.
pub proof fn law_cache_outlives_seeks(b: BufferView, ms: u64, bytes: Seq<u8>)
    ensures
        b.seek_requested(ms).cache == b.cache,
        b.seek_requested(ms).pushed(bytes).cache == b.cache,
{
}

/// A reader of a buffer that failed or ended never waits, and a reader never waits for bytes that
/// are there.
pub proof fn law_no_waiting_at_the_end(b: BufferView, msg: Seq<char>, offset: int)
    ensures
        !b.failed(msg).awaits(offset),
        !b.ended().awaits(offset),
        offset < b.data.len() ==> !b.awaits(offset),
{
}

/// A read gives the bytes that stand at its place, each of them, and as many as were asked for or as
/// there are.
pub proof fn law_read_is_a_window(data: Seq<u8>, offset: int, len: int, i: int)
    requires
        0 <= offset,
        0 <= len,
    ensures
        ({
            let got = bytes_at(data, offset, len);
            &&& got.len() <= len
            &&& got.len() < len ==> got.len() == 0 || offset + got.len() == data.len()
            &&& got.len() == 0 ==> len == 0 || offset >= data.len()
            &&& 0 <= i < got.len() ==> got[i] == data[offset + i]
        }),
{
}

/// A push puts its bytes, all of them and in their order, behind those that are there, and counts
/// them. Nothing else changes.
pub proof fn law_push_only_appends(b: BufferView, bytes: Seq<u8>)
    ensures
        ({
            let after = b.pushed(bytes);
            &&& after.data.len() == b.data.len() + bytes.len()
            &&& after.data.take(b.data.len() as int) == b.data
            &&& after.data.skip(b.data.len() as int) == bytes
            &&& after == (BufferView { data: after.data, written: after.written, ..b })
            &&& b.written + bytes.len() <= usize::MAX ==> after.written == b.written + bytes.len()
        }),
{
    law_counts_add_up(b.written, bytes.len(), 0);
    let after = b.pushed(bytes);
    assert(after.data.take(b.data.len() as int) =~= b.data);
    assert(after.data.skip(b.data.len() as int) =~= bytes);
}

/// Pushing in two pieces is pushing the whole.
pub proof fn law_pushes_join(b: BufferView, first: Seq<u8>, second: Seq<u8>)
    ensures
        b.pushed(first).pushed(second) == b.pushed(first + second),
{
    law_counts_add_up(b.written, first.len(), second.len());
    assert(b.data + first + second =~= b.data + (first + second));
}

/// A seek that is asked for empties the buffer, which has then not ended. What was written in all,
/// what is cached, an error and what is known of the stream outlive it.
pub proof fn law_seek_empties_the_buffer(b: BufferView, ms: u64)
    ensures
        ({
            let after = b.seek_requested(ms);
            &&& after.data.len() == 0
            &&& !after.eos
            &&& ms < u64::MAX ==> after.seek == Some(ms)
            &&& after == (BufferView { data: after.data, eos: false, seek: after.seek, ..b })
            &&& after.seek_taken() == (BufferView { seek: None, ..after })
        }),
{
}

/// Ending, failing and caching each change what they name and nothing else. A buffer that failed has
/// ended too, and keeps its bytes.
pub proof fn law_marks_change_nothing_else(
    b: BufferView,
    msg: Seq<char>,
    key: Seq<char>,
    bytes: Seq<u8>,
)
    ensures
        b.ended().eos && b.ended() == (BufferView { eos: true, ..b }),
        b.failed(msg).eos && b.failed(msg).error && b.failed(msg).error_msg == msg,
        b.failed(msg) == (BufferView { eos: true, error: true, error_msg: msg, ..b }),
        b.cached(key, bytes) == (BufferView { cache: b.cached(key, bytes).cache, ..b }),
{
}

/// A later body replaces an earlier one under the same key.
pub proof fn law_cache_keeps_the_latest(
    b: BufferView,
    key: Seq<char>,
    first: Seq<u8>,
    second: Seq<u8>,
)
    ensures
        b.cached(key, first).cached(key, second).cache_entry(key) == Some(second),
        BufferView::fresh().cache_entry(key) is None,
{
}

/// A reader waits exactly while nothing stands at its place and more may come. A push at that place
/// ends the wait.
pub proof fn law_push_ends_the_wait(b: BufferView, offset: int, bytes: Seq<u8>)
    requires
        0 <= offset,
    ensures
        b.awaits(offset) <==> bytes_at(b.data, offset, 1).len() == 0 && !b.eos,
        offset < b.data.len() + bytes.len() ==> !b.pushed(bytes).awaits(offset),
        b.awaits(offset) && offset >= b.data.len() + bytes.len() ==> b.pushed(bytes).awaits(offset),
{
}

/// A fresh buffer holds nothing, asks for nothing and has neither ended nor failed.
pub proof fn law_fresh_buffer_is_empty(offset: int)
    requires
        0 <= offset,
    ensures
        ({
            let b = BufferView::fresh();
            &&& b.data.len() == 0 && b.written == 0 && b.awaits(offset)
            &&& !b.eos && !b.error && !b.is_ts && !b.prefetched && !b.cancelled
            &&& b.seek is None && b.total_len == 0 && b.duration_ms == 0
            &&& b.total_segments == 0 && b.downloaded_segments == 0
            &&& b.error_msg.len() == 0
        }),
{
}

/// The fraction that is done is that of the segments: as many as were downloaded of as many as there
/// are, all of them at the most, and nothing where it is not known how many there are.
pub proof fn law_progress_is_what_was_downloaded(done: u64, more: u64, total: u64)
    requires
        done <= more,
    ensures
        total > 0 ==> progress_of(done, total).whole == total,
        done <= total && total > 0 ==> progress_of(done, total).done == done,
        done >= total && total > 0 ==> progress_of(done, total).done == total,
        total == 0 ==> progress_of(done, total).done == 0,
        progress_of(done, total).done <= progress_of(more, total).done,
{
}

} // verus!
