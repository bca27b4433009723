//! Streaming one rendition: which segments of a media playlist are downloaded, and what becomes of
//! them.
//!
//! The rendition's playlist is fetched again and again. Each pass goes through its entries, and a
//! segment that was not seen yet goes into the stream buffer: from the cache where it is there,
//! else from the network. A seek starts the rendition anew at another position.
use vstd::prelude::*;
use vstd::hash_set::StringHashSet;

use crate::failure::Failure;
use crate::playlist;
use crate::stream_buffer::BufferView;
use crate::stream_buffer::StreamBuffer;

verus! {

/// How far the download of a rendition has come.
#[verifier::ext_equal]
pub struct RenditionView {
    /// The position at which playback starts.
    pub start_ms: u64,
    /// The initialisation segment is there, or there is none.
    pub init_done: bool,
    /// The entries before the start position are behind.
    pub reached_start: bool,
    /// The segments that were handled since the last seek.
    pub seen: Set<Seq<char>>,
    /// The initialisation segment.
    pub init: Option<Seq<u8>>,
}

impl RenditionView {
    /// The rendition once a seek was taken.
    pub open spec fn restarted(self, ms: u64) -> RenditionView {
        RenditionView { start_ms: ms, reached_start: false, seen: Set::empty(), ..self }
    }

    /// The rendition at the beginning of a pass.
    pub open spec fn at_pass(self, buffer: BufferView) -> RenditionView {
        match buffer.seek {
            Some(ms) => self.restarted(ms),
            None => self,
        }
    }

    /// The stream buffer at the beginning of a pass: after a seek it begins with the initialisation
    /// segment.
    pub open spec fn buffer_at_pass(self, buffer: BufferView) -> BufferView {
        match (buffer.seek, self.init) {
            (Some(_), Some(init)) => buffer.seek_taken().pushed(init),
            _ => buffer.seek_taken(),
        }
    }

    /// The rendition once a media playlist was fetched: a playlist that names no initialisation segment
    /// leaves nothing to wait for.
    pub open spec fn at_playlist(self, playlist: Seq<char>) -> RenditionView {
        RenditionView {
            init_done: self.init_done || !crate::text::has(playlist, "#EXT-X-MAP:URI=\""@),
            ..self
        }
    }

    /// The stream buffer once a media playlist was fetched: the first that has no initialisation segment
    /// marks the buffer as MPEG-TS.
    pub open spec fn buffer_at_playlist(self, buffer: BufferView, playlist: Seq<char>) -> BufferView {
        if !self.init_done && !playlist::fragmented(playlist) {
            BufferView { is_ts: true, ..buffer }
        } else {
            buffer
        }
    }

    /// The initialisation segment is to be fetched.
    pub open spec fn wants_init(self, playlist: Seq<char>) -> bool {
        !self.init_done && playlist::init_uri(playlist) is Some
    }

    /// The rendition once its initialisation segment was fetched.
    pub open spec fn with_init(self, bytes: Seq<u8>) -> RenditionView {
        RenditionView { init_done: true, init: Some(bytes), ..self }
    }

    /// An entry is handled: it is not passed over, and its segment was not handled before.
    pub open spec fn handles(self, segment: Seq<char>, ends_before_start: bool) -> bool {
        !self.passes_over(ends_before_start) && !self.seen.contains(segment)
    }

    /// The segment of an entry is to be fetched from the network.
    pub open spec fn fetches(
        self,
        buffer: BufferView,
        media_url: Seq<char>,
        segment: Seq<char>,
        ends_before_start: bool,
    ) -> bool {
        self.handles(segment, ends_before_start) && buffer.cache_entry(
            playlist::resolved(media_url, segment),
        ) is None
    }

    /// An entry is passed over: the start position is not reached, and the entry ends before it.
    pub open spec fn passes_over(self, ends_before_start: bool) -> bool {
        !self.reached_start && ends_before_start
    }

    /// The rendition behind an entry.
    pub open spec fn behind(self, segment: Seq<char>, ends_before_start: bool) -> RenditionView {
        if self.passes_over(ends_before_start) {
            self
        } else {
            RenditionView { reached_start: true, seen: self.seen.insert(segment), ..self }
        }
    }
}

/// What is to be done about the initialisation segment.
pub enum InitStep {
    /// Nothing.
    Nothing,
    /// It is to be fetched from this address.
    Fetch(String),
}

/// What was done about an entry, or is to be done.
pub enum EntryStep {
    /// It lies before the start position.
    PassedOver,
    /// It was handled before.
    Known,
    /// It was taken from the cache.
    FromCache,
    /// It is to be fetched from this address.
    Fetch(String),
}

/// The download of one rendition.
pub struct Rendition {
    start_ms: u64,
    init_done: bool,
    reached_start: bool,
    seen: StringHashSet,
    init: Option<Vec<u8>>,
}

impl View for Rendition {
    type V = RenditionView;

    closed spec fn view(&self) -> RenditionView {
        RenditionView {
            start_ms: self.start_ms,
            init_done: self.init_done,
            reached_start: self.reached_start,
            seen: self.seen@,
            init: match self.init {
                Some(bytes) => Some(bytes@),
                None => None,
            },
        }
    }
}

impl Rendition {
    /// A rendition of which nothing was downloaded, to be played from `start_ms`.
    pub fn new(start_ms: u64) -> (r: Rendition)
        ensures
            r@ == (RenditionView {
                start_ms,
                init_done: false,
                reached_start: false,
                seen: Set::empty(),
                init: None,
            }),
    {
        Rendition {
            start_ms,
            init_done: false,
            reached_start: false,
            seen: StringHashSet::new(),
            init: None,
        }
    }

    /// The position at which playback starts.
    pub fn start_ms(&self) -> (r: u64)
        ensures
            r == self@.start_ms,
    {
        self.start_ms
    }

    /// Begins a pass: takes the seek that was requested, if there is one, and says where it leads.
    pub fn begin_pass(&mut self, buffer: &mut StreamBuffer) -> (seek: Option<u64>)
        ensures
            seek == old(buffer)@.seek,
            final(self)@ == old(self)@.at_pass(old(buffer)@),
            final(buffer)@ == old(self)@.buffer_at_pass(old(buffer)@),
    {
        let seek: Option<u64> = buffer.take_seek_request();
        if let Some(ms) = seek {
            self.start_ms = ms;
            self.reached_start = false;
            self.seen.clear();
            if let Some(bytes) = &self.init {
                buffer.push(bytes.as_slice());
            }
        }
        seek
    }

    /// Looks for the initialisation segment in the media playlist that was fetched from `media_url`.
    /// A playlist without one marks the buffer as MPEG-TS.
    pub fn on_playlist(&mut self, buffer: &mut StreamBuffer, media_url: &str, playlist: &str) -> (r:
        InitStep)
        ensures
            final(buffer)@ == old(self)@.buffer_at_playlist(old(buffer)@, playlist@),
            final(self)@ == old(self)@.at_playlist(playlist@),
            r is Fetch <==> old(self)@.wants_init(playlist@),
            r matches InitStep::Fetch(url) ==> url@ == playlist::resolved(
                media_url@,
                playlist::init_uri(playlist@).unwrap(),
            ),
    {
        if self.init_done {
            return InitStep::Nothing;
        }
        if !playlist::is_fragmented(playlist) {
            buffer.set_is_ts(true);
        }
        match playlist::init_segment(media_url, playlist) {
            playlist::InitSegment::At(url) => InitStep::Fetch(url),
            playlist::InitSegment::Unclosed => InitStep::Nothing,
            playlist::InitSegment::Absent => {
                self.init_done = true;
                InitStep::Nothing
            },
        }
    }

    /// Takes the initialisation segment that was fetched.
    pub fn init_fetched(&mut self, buffer: &mut StreamBuffer, bytes: Vec<u8>)
        ensures
            final(buffer)@ == old(buffer)@.pushed(bytes@),
            final(self)@ == old(self)@.with_init(bytes@),
    {
        buffer.push(bytes.as_slice());
        self.init = Some(bytes);
        self.init_done = true;
    }

    /// Whether the duration of the stream is to be computed now: on the first pass over a recorded
    /// stream of which it is not known.
    pub fn wants_duration(&self, buffer: &StreamBuffer, is_live: bool) -> (r: bool)
        ensures
            r == (self@.seen == Set::<Seq<char>>::empty() && !is_live && buffer@.duration_ms == 0),
    {
        let none: bool = self.seen.is_empty();
        proof {
            assert(self.seen@.is_empty() <==> self.seen@ =~= Set::<Seq<char>>::empty());
        }
        none && !is_live && buffer.get_duration_ms() == 0
    }

    /// Handles an entry of the playlist that was fetched from `media_url`. `ends_before_start` says
    /// that the entry ends before the start position.
    pub fn on_entry(
        &mut self,
        buffer: &mut StreamBuffer,
        media_url: &str,
        segment: &str,
        ends_before_start: bool,
    ) -> (r: EntryStep)
        ensures
            final(self)@ == old(self)@.behind(segment@, ends_before_start),
            r is PassedOver <==> old(self)@.passes_over(ends_before_start),
            r is Known <==> !old(self)@.passes_over(ends_before_start) && old(self)@.seen.contains(
                segment@,
            ),
            r is FromCache <==> !old(self)@.passes_over(ends_before_start) && !old(
                self,
            )@.seen.contains(segment@) && old(buffer)@.cache_entry(
                playlist::resolved(media_url@, segment@),
            ) is Some,
            r is Fetch <==> old(self)@.fetches(
                old(buffer)@,
                media_url@,
                segment@,
                ends_before_start,
            ),
            r matches EntryStep::Fetch(url) ==> url@ == playlist::resolved(media_url@, segment@),
            final(buffer)@ == (if r is FromCache {
                old(buffer)@.pushed(
                    old(buffer)@.cache_entry(playlist::resolved(media_url@, segment@)).unwrap(),
                )
            } else {
                old(buffer)@
            }),
    {
        if !self.reached_start {
            if ends_before_start {
                return EntryStep::PassedOver;
            }
            self.reached_start = true;
        }
        if self.seen.contains(segment) {
            assert(self.seen@.insert(segment@) =~= self.seen@);
            return EntryStep::Known;
        }
        self.seen.insert(crate::text::copy_string(segment));
        let url: String = playlist::resolve_url(media_url, segment);
        match buffer.cache_get(url.as_str()) {
            Some(bytes) => {
                buffer.push(bytes.as_slice());
                EntryStep::FromCache
            },
            None => EntryStep::Fetch(url),
        }
    }

    /// Takes a segment that was fetched: it is kept under its address and goes into the stream.
    pub fn segment_fetched(&self, buffer: &mut StreamBuffer, url: String, bytes: Vec<u8>)
        ensures
            final(buffer)@ == old(buffer)@.cached(url@, bytes@).pushed(bytes@),
    {
        let copy: Vec<u8> = bytes.clone();
        assert(copy@ =~= bytes@);
        buffer.cache_put(url, copy);
        buffer.push(bytes.as_slice());
    }
}

/// What is to be streamed: the renditions that the playlist at `url` leads to, given what the server
/// answered. Where there is no playlist the buffer says why.
pub fn find_renditions(
    buffer: &mut StreamBuffer,
    url: &str,
    answer: Result<String, String>,
) -> (r: Option<playlist::Renditions>)
    ensures
        r is Some <==> (answer matches Ok(text) && crate::text::has(text@, "#EXTM3U"@)),
        r matches Some(found) ==> {
            &&& found.video_url@ == playlist::video_rendition(url@, answer->Ok_0@)
            &&& playlist::opt_view(found.audio_url) == playlist::audio_rendition(
                url@,
                answer->Ok_0@,
            )
        },
        final(buffer)@ == (match answer {
            Ok(text) => if crate::text::has(text@, "#EXTM3U"@) {
                old(buffer)@
            } else {
                old(buffer)@.failed("Invalid M3U8 file"@)
            },
            Err(reason) => old(buffer)@.failed("HLS playlist fetch failed: "@ + reason@),
        }),
{
    match answer {
        Ok(text) => match playlist::select_renditions(url, text.as_str()) {
            Ok(found) => Some(found),
            Err(e) => {
                buffer.set_error(e.message());
                None
            },
        },
        Err(reason) => {
            buffer.set_error(Failure::Playlist.message(reason.as_str()));
            None
        },
    }
}

/// How long to wait behind a pass, in milliseconds, unless the download is to stop.
pub open spec fn pause_behind_pass(cancelled: bool, is_live: bool) -> Option<u64> {
    if cancelled {
        None
    } else if is_live {
        Some(2000u64)
    } else {
        Some(500u64)
    }
}

/// How long to wait after a playlist could not be fetched, in milliseconds, unless the download is to
/// stop.
pub open spec fn pause_behind_failure(cancelled: bool) -> Option<u64> {
    if cancelled {
        None
    } else {
        Some(2000u64)
    }
}

/// How long to wait behind a pass, in milliseconds, unless the download is to stop: a live playlist
/// grows slowly, a recorded one is looked at only for the seeks that may come.
pub fn after_pass(buffer: &StreamBuffer, is_live: bool) -> (ms: Option<u64>)
    ensures
        ms == pause_behind_pass(buffer@.cancelled, is_live),
{
    if buffer.is_cancelled() {
        None
    } else if is_live {
        Some(2000)
    } else {
        Some(500)
    }
}

/// How long to wait after a playlist could not be fetched, in milliseconds, unless the download is to
/// stop.
pub fn after_failed_fetch(buffer: &StreamBuffer) -> (ms: Option<u64>)
    ensures
        ms == pause_behind_failure(buffer@.cancelled),
{
    if buffer.is_cancelled() {
        None
    } else {
        Some(2000)
    }
}

// ---------------------------------------------------------------------------------------------
// Laws
// ---------------------------------------------------------------------------------------------

/// A segment goes into the stream at most once between two seeks: behind an entry that was not
/// passed over, its segment is known.
pub proof fn law_segment_is_handled_once(r: RenditionView, segment: Seq<char>, ends_before: bool)
    requires
        !r.passes_over(ends_before),
    ensures
        r.behind(segment, ends_before).seen.contains(segment),
        forall|s: Seq<char>|
            s != segment ==> r.behind(segment, ends_before).seen.contains(s) == r.seen.contains(s),
{
}

/// Entries are passed over only up to the first one that is not: behind that one none is passed
/// over before the next seek.
pub proof fn law_start_is_reached_once(
    r: RenditionView,
    first: Seq<char>,
    ends_before: bool,
    later: Seq<char>,
    later_ends_before: bool,
)
    requires
        !r.passes_over(ends_before),
    ensures
        !r.behind(first, ends_before).passes_over(later_ends_before),
        !r.behind(first, ends_before).behind(later, later_ends_before).passes_over(true),
        r.behind(first, ends_before).behind(later, later_ends_before).seen.contains(later),
{
}

/// After a seek the stream begins with the initialisation segment, if there is one, and every
/// segment may be handled again.
pub proof fn law_seek_starts_anew(r: RenditionView, b: BufferView, ms: u64)
    requires
        ms != u64::MAX,
    ensures
        r.at_pass(b.seek_requested(ms)).start_ms == ms,
        r.at_pass(b.seek_requested(ms)).seen == Set::<Seq<char>>::empty(),
        !r.at_pass(b.seek_requested(ms)).reached_start,
        r.buffer_at_pass(b.seek_requested(ms)).data == (match r.init {
            Some(init) => init,
            None => Seq::empty(),
        }),
        r.buffer_at_pass(b.seek_requested(ms)).seek is None,
{
    if let Some(init) = r.init {
        assert(Seq::<u8>::empty() + init =~= init);
    }
}

/// A download that was cancelled stops, whatever else comes up, and nothing brings it back.
pub proof fn law_cancelled_stays_cancelled(b: BufferView, bytes: Seq<u8>, ms: u64, msg: Seq<char>)
    requires
        b.cancelled,
    ensures
        b.pushed(bytes).cancelled,
        b.seek_requested(ms).cancelled,
        b.seek_taken().cancelled,
        b.ended().cancelled,
        b.failed(msg).cancelled,
{
}

/// A segment that was fetched is not fetched again after a seek: it is found under its address.
pub proof fn law_fetched_segment_is_kept(b: BufferView, url: Seq<char>, bytes: Seq<u8>, ms: u64)
    ensures
        b.cached(url, bytes).pushed(bytes).seek_requested(ms).cache_entry(url) == Some(bytes),
{
}

// ---------------------------------------------------------------------------------------------
// Whole passes
// ---------------------------------------------------------------------------------------------

/// An entry of a media playlist, with what becomes of it.
#[verifier::ext_equal]
pub struct EntryRun {
    /// The line that names the segment.
    pub segment: Seq<char>,
    /// The entry ends before the start position.
    pub ends_before: bool,
    /// What a fetch of the segment gives, nothing where it fails.
    pub fetched: Option<Seq<u8>>,
}

/// A pass over a media playlist, with what becomes of it.
#[verifier::ext_equal]
pub struct PassRun {
    /// The playlist that was fetched.
    pub playlist: Seq<char>,
    /// What a fetch of the initialisation segment gives, nothing where it fails.
    pub init: Option<Seq<u8>>,
    /// The entries of the playlist.
    pub entries: Seq<EntryRun>,
}

/// A rendition and the buffer that it fills.
#[verifier::ext_equal]
pub struct Stream {
    pub rendition: RenditionView,
    pub buffer: BufferView,
}

impl Stream {
    /// A rendition of which nothing was downloaded, with a buffer.
    pub open spec fn fresh(start_ms: u64, buffer: BufferView) -> Stream {
        Stream {
            rendition: RenditionView {
                start_ms,
                init_done: false,
                reached_start: false,
                seen: Set::empty(),
                init: None,
            },
            buffer,
        }
    }

    /// The stream once a seek was requested.
    pub open spec fn seek_requested(self, ms: u64) -> Stream {
        Stream { buffer: self.buffer.seek_requested(ms), ..self }
    }

    /// The stream behind an entry: the segment comes from the cache or, where it is not there, from the
    /// network, and is then kept.
    pub open spec fn behind_entry(self, url: Seq<char>, e: EntryRun) -> Stream {
        let address = playlist::resolved(url, e.segment);
        Stream {
            rendition: self.rendition.behind(e.segment, e.ends_before),
            buffer: if !self.rendition.handles(e.segment, e.ends_before) {
                self.buffer
            } else {
                match (self.buffer.cache_entry(address), e.fetched) {
                    (Some(bytes), _) => self.buffer.pushed(bytes),
                    (None, Some(bytes)) => self.buffer.cached(address, bytes).pushed(bytes),
                    (None, None) => self.buffer,
                }
            },
        }
    }

    /// The stream behind the first `n` entries.
    pub open spec fn behind_entries(self, url: Seq<char>, es: Seq<EntryRun>, n: int) -> Stream
        decreases n,
    {
        if n <= 0 {
            self
        } else {
            self.behind_entries(url, es, n - 1).behind_entry(url, es[n - 1])
        }
    }

    /// The stream in a pass before its entries: a requested seek was taken, and the initialisation
    /// segment was looked for.
    pub open spec fn before_entries(self, p: PassRun) -> Stream {
        let r = self.rendition.at_pass(self.buffer);
        let b = self.rendition.buffer_at_pass(self.buffer);
        let found = Stream {
            rendition: r.at_playlist(p.playlist),
            buffer: r.buffer_at_playlist(b, p.playlist),
        };
        match p.init {
            Some(bytes) if r.wants_init(p.playlist) => Stream {
                rendition: found.rendition.with_init(bytes),
                buffer: found.buffer.pushed(bytes),
            },
            _ => found,
        }
    }

    /// The stream behind a pass.
    pub open spec fn behind_pass(self, url: Seq<char>, p: PassRun) -> Stream {
        self.before_entries(p).behind_entries(url, p.entries, p.entries.len() as int)
    }

    /// The stream behind the first `n` passes.
    pub open spec fn behind_passes(self, url: Seq<char>, ps: Seq<PassRun>, n: int) -> Stream
        decreases n,
    {
        if n <= 0 {
            self
        } else {
            self.behind_passes(url, ps, n - 1).behind_pass(url, ps[n - 1])
        }
    }

    /// The start position is reached at entry `i`.
    pub open spec fn reached(self, es: Seq<EntryRun>, i: int) -> bool {
        self.rendition.reached_start || exists|j: int| 0 <= j <= i && !(#[trigger] es[j]).ends_before
    }

    /// Entry `i` is the first appearance of its segment since the start position was reached.
    pub open spec fn counts(self, es: Seq<EntryRun>, i: int) -> bool {
        &&& 0 <= i < es.len()
        &&& self.reached(es, i)
        &&& !self.rendition.seen.contains(es[i].segment)
        &&& forall|j: int|
            0 <= j < i && self.reached(es, j) ==> (#[trigger] es[j]).segment != es[i].segment
    }

    /// The bytes of the segment of entry `i`: those that are kept under its address by then, or else
    /// what its fetch gives.
    pub open spec fn body(self, url: Seq<char>, es: Seq<EntryRun>, i: int) -> Option<Seq<u8>> {
        match self.behind_entries(url, es, i).buffer.cache_entry(
            playlist::resolved(url, es[i].segment),
        ) {
            Some(bytes) => Some(bytes),
            None => es[i].fetched,
        }
    }

    /// The bytes of the segments of the first `n` entries, in order of first appearance, each once; a
    /// segment that could not be had is left out.
    pub open spec fn bodies(self, url: Seq<char>, es: Seq<EntryRun>, n: int) -> Seq<u8>
        decreases n,
    {
        if n <= 0 {
            Seq::empty()
        } else {
            match self.body(url, es, n - 1) {
                Some(bytes) if self.counts(es, n - 1) => self.bodies(url, es, n - 1) + bytes,
                _ => self.bodies(url, es, n - 1),
            }
        }
    }
}

/// The entries of the first `n` passes, one behind the other.
pub open spec fn all_entries(ps: Seq<PassRun>, n: int) -> Seq<EntryRun>
    decreases n,
{
    if n <= 0 {
        Seq::empty()
    } else {
        all_entries(ps, n - 1) + ps[n - 1].entries
    }
}

/// What the first `n` entries leave behind.
proof fn lemma_behind_entries(s: Stream, url: Seq<char>, es: Seq<EntryRun>, n: int)
    requires
        0 <= n <= es.len(),
    ensures
        ({
            let end = s.behind_entries(url, es, n);
            &&& end.buffer.data == s.buffer.data + s.bodies(url, es, n)
            &&& end.buffer.is_ts == s.buffer.is_ts
            &&& end.buffer.seek == s.buffer.seek
            &&& end.rendition.init_done == s.rendition.init_done
            &&& end.rendition.init == s.rendition.init
            &&& end.rendition.reached_start == (s.rendition.reached_start || s.reached(es, n - 1))
            &&& forall|x: Seq<char>| #[trigger]
                end.rendition.seen.contains(x) <==> s.rendition.seen.contains(x) || exists|j: int|
                    0 <= j < n && s.reached(es, j) && (#[trigger] es[j]).segment == x
        }),
    decreases n,
{
    if n == 0 {
        assert(s.buffer.data + Seq::<u8>::empty() =~= s.buffer.data);
    } else {
        let m = n - 1;
        lemma_behind_entries(s, url, es, m);
        let before = s.behind_entries(url, es, m);
        let e = es[m];
        let end = before.behind_entry(url, e);
        assert(s.reached(es, m) <==> s.rendition.reached_start || s.reached(es, m - 1)
            || !e.ends_before) by {
            if s.reached(es, m) && !s.rendition.reached_start && e.ends_before {
                let j = choose|j: int| 0 <= j <= m && !(#[trigger] es[j]).ends_before;
                assert(j <= m - 1);
            }
            if s.reached(es, m - 1) && !s.rendition.reached_start {
                let j = choose|j: int| 0 <= j <= m - 1 && !(#[trigger] es[j]).ends_before;
                assert(0 <= j <= m && !es[j].ends_before);
            }
        }
        assert(before.rendition.passes_over(e.ends_before) <==> !s.reached(es, m));
        assert(before.rendition.handles(e.segment, e.ends_before) <==> s.counts(es, m)) by {
            if s.reached(es, m) {
                if before.rendition.seen.contains(e.segment) && s.counts(es, m) {
                    let j = choose|j: int|
                        0 <= j < m && s.reached(es, j) && (#[trigger] es[j]).segment == e.segment;
                    assert(es[j].segment != e.segment);
                }
            }
        }
        assert(end.buffer.data =~= s.buffer.data + s.bodies(url, es, n));
        assert forall|x: Seq<char>| #[trigger]
            end.rendition.seen.contains(x) <==> s.rendition.seen.contains(x) || exists|j: int|
                0 <= j < n && s.reached(es, j) && (#[trigger] es[j]).segment == x by {
            if s.reached(es, m) && x == e.segment {
                assert(0 <= m < n && s.reached(es, m) && es[m].segment == x);
            }
            assert(before.rendition.seen.contains(x) <==> s.rendition.seen.contains(x) || exists|
                j: int,
            |
                0 <= j < m && s.reached(es, j) && (#[trigger] es[j]).segment == x);
        }
    }
}

/// Going through entries in two goes is going through all of them.
proof fn lemma_entries_join(
    s: Stream,
    url: Seq<char>,
    first: Seq<EntryRun>,
    more: Seq<EntryRun>,
    n: int,
)
    requires
        0 <= n <= more.len(),
    ensures
        s.behind_entries(url, first, first.len() as int).behind_entries(url, more, n)
            == s.behind_entries(url, first + more, first.len() + n),
    decreases n,
{
    if n == 0 {
        lemma_entries_prefix(s, url, first, more, first.len() as int);
    } else {
        lemma_entries_join(s, url, first, more, n - 1);
        assert((first + more)[first.len() + n - 1] == more[n - 1]);
    }
}

/// What the first entries leave behind does not depend on those that follow.
proof fn lemma_entries_prefix(
    s: Stream,
    url: Seq<char>,
    first: Seq<EntryRun>,
    more: Seq<EntryRun>,
    n: int,
)
    requires
        0 <= n <= first.len(),
    ensures
        s.behind_entries(url, first + more, n) == s.behind_entries(url, first, n),
    decreases n,
{
    if n > 0 {
        lemma_entries_prefix(s, url, first, more, n - 1);
        assert((first + more)[n - 1] == first[n - 1]);
    }
}

/// Without a seek, passes behind the first one only go on with their entries.
proof fn lemma_behind_passes(s: Stream, url: Seq<char>, ps: Seq<PassRun>, n: int)
    requires
        0 < n <= ps.len(),
        s.buffer.seek is None,
        s.before_entries(ps[0]).rendition.init_done,
    ensures
        s.behind_passes(url, ps, n) == s.before_entries(ps[0]).behind_entries(
            url,
            all_entries(ps, n),
            all_entries(ps, n).len() as int,
        ),
    decreases n,
{
    let s0 = s.before_entries(ps[0]);
    if n == 1 {
        assert(s.behind_passes(url, ps, 0) == s);
        assert(all_entries(ps, 0) =~= Seq::empty());
        assert(all_entries(ps, 1) =~= ps[0].entries);
    } else {
        lemma_behind_passes(s, url, ps, n - 1);
        let es = all_entries(ps, n - 1);
        let more = ps[n - 1].entries;
        lemma_behind_entries(s0, url, es, es.len() as int);
        let before = s0.behind_entries(url, es, es.len() as int);
        assert(before == s.behind_passes(url, ps, n - 1));
        assert(before.buffer.seek is None);
        assert(before.before_entries(ps[n - 1]) =~= before);
        lemma_entries_join(s0, url, es, more, more.len() as int);
        assert(all_entries(ps, n) == es + more);
    }
}

/// What is streamed of a rendition without a seek, over any number of passes: the initialisation
/// segment once, if there is one, and then the segments in order of first appearance. Each line that
/// is reached is handled just once, so that a segment that could not be had is left out and not tried
/// again. The buffer is marked as MPEG-TS where the first playlist has no initialisation segment.
///
/// The initialisation segment is taken to be had in the first pass, where the playlist names one.
pub proof fn law_stream_is_in_order(
    start_ms: u64,
    buffer: BufferView,
    url: Seq<char>,
    ps: Seq<PassRun>,
    n: int,
)
    requires
        0 < n <= ps.len(),
        buffer.seek is None,
        crate::text::has(ps[0].playlist, "#EXT-X-MAP:URI=\""@) ==> playlist::init_uri(ps[0].playlist)
            is Some && ps[0].init is Some,
    ensures
        ({
            let s = Stream::fresh(start_ms, buffer);
            let s0 = s.before_entries(ps[0]);
            let es = all_entries(ps, n);
            let end = s.behind_passes(url, ps, n);
            let init = if playlist::init_uri(ps[0].playlist) is Some {
                ps[0].init.unwrap()
            } else {
                Seq::empty()
            };
            &&& end.buffer.data == buffer.data + init + s0.bodies(url, es, es.len() as int)
            &&& end.buffer.is_ts == (buffer.is_ts || !playlist::fragmented(ps[0].playlist))
            &&& forall|i: int, j: int|
                s0.counts(es, i) && s0.counts(es, j) && (#[trigger] es[i]).segment == (
                #[trigger] es[j]).segment ==> i == j
            &&& forall|i: int|
                0 <= i < es.len() && s0.reached(es, i) ==> exists|j: int|
                    j <= i && s0.counts(es, j) && (#[trigger] es[j]).segment == (
                    #[trigger] es[i]).segment
        }),
{
    let s = Stream::fresh(start_ms, buffer);
    let s0 = s.before_entries(ps[0]);
    let es = all_entries(ps, n);
    lemma_init_uri(ps[0].playlist);
    lemma_behind_passes(s, url, ps, n);
    lemma_behind_entries(s0, url, es, es.len() as int);
    let init = if playlist::init_uri(ps[0].playlist) is Some {
        ps[0].init.unwrap()
    } else {
        Seq::empty()
    };
    assert(s0.buffer.data =~= buffer.data + init);
    assert forall|i: int, j: int|
        s0.counts(es, i) && s0.counts(es, j) && (#[trigger] es[i]).segment == (
        #[trigger] es[j]).segment implies i == j by {
        if i < j {
            assert(es[i].segment != es[j].segment);
        } else if j < i {
            assert(es[j].segment != es[i].segment);
        }
    }
    assert forall|i: int| 0 <= i < es.len() && s0.reached(es, i) implies exists|j: int|
        j <= i && s0.counts(es, j) && (#[trigger] es[j]).segment == (#[trigger] es[i]).segment by {
        lemma_first_appearance(s0, es, i, i);
    }
}

/// An initialisation segment that a playlist names is named behind its tag.
proof fn lemma_init_uri(playlist: Seq<char>)
    ensures
        playlist::init_uri(playlist) is Some ==> crate::text::has(
            playlist,
            "#EXT-X-MAP:URI=\""@,
        ),
{
    crate::text::law_pattern_is_found_first(playlist, "#EXT-X-MAP:URI=\""@);
}

/// A line that is reached, and was not handled before, has a first appearance.
proof fn lemma_first_appearance(s: Stream, es: Seq<EntryRun>, i: int, k: int)
    requires
        0 <= k <= i < es.len(),
        s.reached(es, k),
        es[k].segment == es[i].segment,
        s.rendition.seen =~= Set::empty(),
    ensures
        exists|j: int| j <= i && s.counts(es, j) && (#[trigger] es[j]).segment == es[i].segment,
    decreases k,
{
    if s.counts(es, k) {
        assert(k <= i && s.counts(es, k) && es[k].segment == es[i].segment);
    } else {
        let j = choose|j: int|
            0 <= j < k && s.reached(es, j) && (#[trigger] es[j]).segment == es[k].segment;
        lemma_first_appearance(s, es, i, j);
    }
}

/// The bytes of a segment are what its own fetch gave, unless there were bytes under its address
/// before: in the cache from the start, or from another line with the same address.
pub proof fn law_body_is_what_was_fetched(s: Stream, url: Seq<char>, es: Seq<EntryRun>, i: int)
    requires
        0 <= i < es.len(),
        s.buffer.cache_entry(playlist::resolved(url, es[i].segment)) is None,
        forall|j: int|
            0 <= j < i && s.counts(es, j) ==> playlist::resolved(url, (#[trigger] es[j]).segment)
                != playlist::resolved(url, es[i].segment),
    ensures
        s.body(url, es, i) == es[i].fetched,
{
    lemma_cache_keys(s, url, es, i, playlist::resolved(url, es[i].segment));
}

/// Only entries that are handled put bytes under an address.
proof fn lemma_cache_keys(s: Stream, url: Seq<char>, es: Seq<EntryRun>, n: int, address: Seq<char>)
    requires
        0 <= n <= es.len(),
        !s.buffer.cache.contains_key(address),
        forall|j: int|
            0 <= j < n && s.counts(es, j) ==> playlist::resolved(url, (#[trigger] es[j]).segment)
                != address,
    ensures
        !s.behind_entries(url, es, n).buffer.cache.contains_key(address),
    decreases n,
{
    if n > 0 {
        let m = n - 1;
        lemma_cache_keys(s, url, es, m, address);
        lemma_handles(s, url, es, m);
        let before = s.behind_entries(url, es, m);
        if before.rendition.handles(es[m].segment, es[m].ends_before) {
            assert(playlist::resolved(url, es[m].segment) != address);
        }
    }
}

/// An entry is handled just where it counts.
proof fn lemma_handles(s: Stream, url: Seq<char>, es: Seq<EntryRun>, m: int)
    requires
        0 <= m < es.len(),
    ensures
        s.behind_entries(url, es, m).rendition.handles(es[m].segment, es[m].ends_before)
            <==> s.counts(es, m),
{
    lemma_behind_entries(s, url, es, m);
    let before = s.behind_entries(url, es, m);
    let e = es[m];
    if s.reached(es, m) && !s.rendition.reached_start && e.ends_before {
        let j = choose|j: int| 0 <= j <= m && !(#[trigger] es[j]).ends_before;
        assert(0 <= j <= m - 1 && !es[j].ends_before);
        assert(s.reached(es, m - 1));
    }
    if s.reached(es, m - 1) && !s.rendition.reached_start {
        let j = choose|j: int| 0 <= j <= m - 1 && !(#[trigger] es[j]).ends_before;
        assert(0 <= j <= m && !es[j].ends_before);
    }
    if !e.ends_before {
        assert(0 <= m <= m && !es[m].ends_before);
    }
    if before.rendition.seen.contains(e.segment) && s.counts(es, m) {
        let j = choose|j: int|
            0 <= j < m && s.reached(es, j) && (#[trigger] es[j]).segment == e.segment;
        assert(es[j].segment != e.segment);
    }
}

/// Entry `i` is the first appearance of its segment from entry `from` on.
pub open spec fn first_from(es: Seq<EntryRun>, from: int, i: int) -> bool {
    forall|j: int| from <= j < i ==> (#[trigger] es[j]).segment != es[i].segment
}

/// The bytes that are kept of the segments of the entries from `from` up to `n`, in their order, each
/// once.
pub open spec fn kept_bodies(
    buffer: BufferView,
    url: Seq<char>,
    es: Seq<EntryRun>,
    from: int,
    n: int,
) -> Seq<u8>
    decreases n,
{
    if n <= from || n <= 0 {
        Seq::empty()
    } else {
        let m = n - 1;
        match buffer.cache_entry(playlist::resolved(url, es[m].segment)) {
            Some(bytes) if first_from(es, from, m) => kept_bodies(buffer, url, es, from, m) + bytes,
            _ => kept_bodies(buffer, url, es, from, m),
        }
    }
}

/// After a seek, a pass over segments that are all kept gives the initialisation segment, if there is
/// one, and then the segments from entry `from` on, the first that reaches the target (none where no
/// entry does). Nothing is fetched again, and the seek is done with.
pub proof fn law_seek_plays_from_the_cache(
    s: Stream,
    url: Seq<char>,
    ms: u64,
    p: PassRun,
    from: int,
)
    requires
        ms != u64::MAX,
        s.rendition.init_done,
        0 <= from <= p.entries.len(),
        forall|i: int| 0 <= i < from ==> (#[trigger] p.entries[i]).ends_before,
        from < p.entries.len() ==> !p.entries[from].ends_before,
        forall|i: int|
            from <= i < p.entries.len() ==> s.buffer.cache_entry(
                playlist::resolved(url, (#[trigger] p.entries[i]).segment),
            ) is Some,
    ensures
        ({
            let sought = s.seek_requested(ms);
            let s0 = sought.before_entries(p);
            let end = sought.behind_pass(url, p);
            let init = match s.rendition.init {
                Some(bytes) => bytes,
                None => Seq::empty(),
            };
            &&& end.buffer.data == init + kept_bodies(
                s.buffer,
                url,
                p.entries,
                from,
                p.entries.len() as int,
            )
            &&& end.buffer.cache == s.buffer.cache
            &&& end.buffer.seek is None
            &&& end.rendition.start_ms == ms
            &&& forall|i: int|
                0 <= i < p.entries.len() ==> {
                    let at = s0.behind_entries(url, p.entries, i);
                    !at.rendition.fetches(
                        at.buffer,
                        url,
                        (#[trigger] p.entries[i]).segment,
                        p.entries[i].ends_before,
                    )
                }
        }),
{
    let sought = s.seek_requested(ms);
    let s0 = sought.before_entries(p);
    let init = match s.rendition.init {
        Some(bytes) => bytes,
        None => Seq::empty(),
    };
    assert(s0.buffer.data =~= init);
    assert forall|i: int| 0 <= i < p.entries.len() implies {
        let at = s0.behind_entries(url, p.entries, i);
        !at.rendition.fetches(
            at.buffer,
            url,
            (#[trigger] p.entries[i]).segment,
            p.entries[i].ends_before,
        )
    } by {
        lemma_replay(s0, s.buffer, url, p.entries, from, i);
    }
    lemma_replay(s0, s.buffer, url, p.entries, from, p.entries.len() as int);
}

/// How long the first `n` segments take together.
pub open spec fn total_ms(durations: Seq<nat>, n: int) -> nat
    decreases n,
{
    if n <= 0 {
        0
    } else {
        total_ms(durations, n - 1) + durations[n - 1]
    }
}

/// Where each entry ends is the sum of the durations up to it; an entry is early where that lies
/// before the target. So after a seek the stream begins with the segment in which the target lies or
/// at whose end it lies.
pub proof fn law_seek_begins_at_the_target(
    s: Stream,
    url: Seq<char>,
    ms: u64,
    p: PassRun,
    durations: Seq<nat>,
    from: int,
)
    requires
        ms != u64::MAX,
        s.rendition.init_done,
        durations.len() == p.entries.len(),
        forall|i: int|
            0 <= i < p.entries.len() ==> (#[trigger] p.entries[i]).ends_before == (total_ms(
                durations,
                i + 1,
            ) < ms),
        0 <= from <= p.entries.len(),
        forall|i: int| 0 <= i < from ==> #[trigger] total_ms(durations, i + 1) < ms,
        from < p.entries.len() ==> total_ms(durations, from + 1) >= ms,
        forall|i: int|
            from <= i < p.entries.len() ==> s.buffer.cache_entry(
                playlist::resolved(url, (#[trigger] p.entries[i]).segment),
            ) is Some,
    ensures
        s.seek_requested(ms).behind_pass(url, p).buffer.data == (match s.rendition.init {
            Some(bytes) => bytes,
            None => Seq::empty(),
        }) + kept_bodies(s.buffer, url, p.entries, from, p.entries.len() as int),
{
    assert forall|i: int| 0 <= i < from implies (#[trigger] p.entries[i]).ends_before by {
        assert(total_ms(durations, i + 1) < ms);
    }
    law_seek_plays_from_the_cache(s, url, ms, p, from);
}

/// What the first `n` entries leave behind after a seek, where all segments are kept.
proof fn lemma_replay(
    s0: Stream,
    kept: BufferView,
    url: Seq<char>,
    es: Seq<EntryRun>,
    from: int,
    n: int,
)
    requires
        0 <= n <= es.len(),
        0 <= from <= es.len(),
        !s0.rendition.reached_start,
        s0.rendition.seen == Set::<Seq<char>>::empty(),
        s0.buffer.cache == kept.cache,
        s0.buffer.seek is None,
        forall|i: int| 0 <= i < from ==> (#[trigger] es[i]).ends_before,
        from < es.len() ==> !es[from].ends_before,
        forall|i: int|
            from <= i < es.len() ==> kept.cache_entry(
                playlist::resolved(url, (#[trigger] es[i]).segment),
            ) is Some,
    ensures
        ({
            let end = s0.behind_entries(url, es, n);
            &&& end.buffer.data == s0.buffer.data + kept_bodies(kept, url, es, from, n)
            &&& end.buffer.cache == kept.cache
            &&& end.buffer.seek is None
            &&& end.rendition.start_ms == s0.rendition.start_ms
            &&& end.rendition.reached_start == (n > from)
            &&& forall|x: Seq<char>| #[trigger]
                end.rendition.seen.contains(x) <==> exists|j: int|
                    from <= j < n && (#[trigger] es[j]).segment == x
        }),
    decreases n,
{
    if n == 0 {
        assert(s0.buffer.data + Seq::<u8>::empty() =~= s0.buffer.data);
    } else {
        let m = n - 1;
        lemma_replay(s0, kept, url, es, from, m);
        let before = s0.behind_entries(url, es, m);
        let e = es[m];
        let end = before.behind_entry(url, e);
        if m < from {
            assert(e.ends_before);
        } else {
            assert(!before.rendition.passes_over(e.ends_before));
            assert(before.rendition.seen.contains(e.segment) <==> !first_from(es, from, m));
            assert forall|x: Seq<char>| #[trigger]
                end.rendition.seen.contains(x) <==> exists|j: int|
                    from <= j < n && (#[trigger] es[j]).segment == x by {
                if x == e.segment {
                    assert(from <= m < n && es[m].segment == x);
                }
                assert(before.rendition.seen.contains(x) <==> exists|j: int|
                    from <= j < m && (#[trigger] es[j]).segment == x);
            }
        }
        assert(end.buffer.data =~= s0.buffer.data + kept_bodies(kept, url, es, from, n));
    }
}

/// A download stops exactly when it was cancelled. Until then it pauses behind every pass, two
/// seconds where the playlist may grow or could not be fetched, and half a second where it is
/// complete.
pub proof fn law_only_cancelling_stops_the_download(cancelled: bool, is_live: bool)
    ensures
        pause_behind_pass(cancelled, is_live) is None <==> cancelled,
        pause_behind_failure(cancelled) is None <==> cancelled,
        pause_behind_pass(cancelled, true) == pause_behind_failure(cancelled),
        pause_behind_pass(cancelled, is_live) matches Some(ms) ==> ms == (if is_live {
            2000int
        } else {
            500int
        }),
{
}

/// A pass without a seek changes neither the rendition nor the buffer. One with a seek starts at the
/// target, forgets which segments it handled, keeps the initialisation segment and puts it behind
/// what the buffer holds; the seek is then taken.
pub proof fn law_pass_takes_the_seek(r: RenditionView, b: BufferView)
    ensures
        b.seek is None ==> r.at_pass(b) == r && r.buffer_at_pass(b) == b,
        r.buffer_at_pass(b).seek is None,
        b.seek is Some ==> r.at_pass(b).start_ms == b.seek.unwrap() && !r.at_pass(b).reached_start,
        b.seek is Some ==> forall|segment: Seq<char>|
            !#[trigger] r.at_pass(b).seen.contains(segment),
        r.at_pass(b).init == r.init && r.at_pass(b).init_done == r.init_done,
        b.seek is Some && r.init is Some ==> r.buffer_at_pass(b).data == b.data + r.init.unwrap(),
        r.init is None ==> r.buffer_at_pass(b).data == b.data,
        r.buffer_at_pass(b) == (BufferView {
            seek: None,
            data: r.buffer_at_pass(b).data,
            written: r.buffer_at_pass(b).written,
            ..b
        }),
{
}

/// The initialisation segment is wanted until it is there, and never again. A playlist without the
/// mark of one needs none, and one without any such mark is MPEG-TS; a playlist that is seen later
/// says nothing new. Nothing else changes.
pub proof fn law_init_segment_is_wanted_once(
    r: RenditionView,
    b: BufferView,
    playlist: Seq<char>,
    bytes: Seq<u8>,
)
    ensures
        r.init_done ==> !r.wants_init(playlist) && r.at_playlist(playlist) == r
            && r.buffer_at_playlist(b, playlist) == b,
        !r.init_done && playlist::init_uri(playlist) is Some ==> r.wants_init(playlist),
        playlist::init_uri(playlist) is None ==> !r.wants_init(playlist),
        r.with_init(bytes).init == Some(bytes) && !r.with_init(bytes).wants_init(playlist),
        r.with_init(bytes) == (RenditionView { init_done: true, init: Some(bytes), ..r }),
        !crate::text::has(playlist, "#EXT-X-MAP:URI=\""@) ==> r.at_playlist(playlist).init_done
            && !r.wants_init(playlist),
        crate::text::has(playlist, "#EXT-X-MAP:URI=\""@) ==> r.at_playlist(playlist) == r,
        r.at_playlist(playlist) == (RenditionView {
            init_done: r.at_playlist(playlist).init_done,
            ..r
        }),
        !r.init_done && !crate::text::has(playlist, "#EXT-X-MAP:"@) ==> r.buffer_at_playlist(
            b,
            playlist,
        ).is_ts,
        crate::text::has(playlist, "#EXT-X-MAP:"@) ==> r.buffer_at_playlist(b, playlist) == b,
        r.buffer_at_playlist(b, playlist) == (BufferView {
            is_ts: r.buffer_at_playlist(b, playlist).is_ts,
            ..b
        }),
{
    lemma_init_uri(playlist);
}

/// An entry is passed over exactly where it ends before the start position and none before it did
/// not, and then nothing changes. Any other is marked as handled, and the start as reached. It is
/// fetched if it was not handled before and is not in the cache.
pub proof fn law_entries_from_the_start_on_are_handled(
    r: RenditionView,
    b: BufferView,
    url: Seq<char>,
    segment: Seq<char>,
    ends_before: bool,
)
    ensures
        ({
            let passed = !r.reached_start && ends_before;
            let after = r.behind(segment, ends_before);
            &&& passed ==> after == r && !r.handles(segment, ends_before)
            &&& !passed ==> after.reached_start && after.seen == r.seen.insert(segment)
            &&& after.start_ms == r.start_ms && after.init == r.init && after.init_done
                == r.init_done
            &&& r.handles(segment, ends_before) <==> !passed && !r.seen.contains(segment)
            &&& !after.handles(segment, ends_before)
            &&& r.fetches(b, url, segment, ends_before) ==> r.handles(segment, ends_before)
                && !b.cache.contains_key(playlist::resolved(url, segment))
            &&& r.handles(segment, ends_before) && !r.fetches(b, url, segment, ends_before)
                ==> b.cache.contains_key(playlist::resolved(url, segment))
        }),
{
}

} // verus!
