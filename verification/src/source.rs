//! Opening a medium: where it is read from, which of its streams are used, and why it cannot be
//! opened.
use vstd::prelude::*;

use crate::pixels;
use crate::prefetch::HlsPrefetchResult;
use crate::stream_buffer::{BufferView, StreamBuffer};
use crate::text;
use crate::units;

verus! {

// ---------------------------------------------------------------------------------------------
// Errors
// ---------------------------------------------------------------------------------------------

/// Why a medium cannot be opened.
#[derive(Clone, Copy, Debug, PartialEq, Eq, Structural)]
pub enum OpenError {
    /// The download of an HLS stream failed or gave nothing.
    StreamingFailed,
    /// The download of a file gave nothing.
    NoBytes,
    /// There is nothing to read from.
    NoSource,
    /// No stream holds video.
    NoVideo,
    /// The video can be had in no format that is known here.
    NoFormat,
    /// The pictures have no width or no height.
    BadDimensions,
}

/// What is said of an error.
pub open spec fn error_text(e: OpenError) -> Seq<char> {
    match e {
        OpenError::StreamingFailed => "HLS streaming failed"@,
        OpenError::NoBytes => "Download produced 0 bytes"@,
        OpenError::NoSource => "Failed to open media source"@,
        OpenError::NoVideo => "No video stream"@,
        OpenError::NoFormat => "No supported video format"@,
        OpenError::BadDimensions => "Bad dims"@,
    }
}

impl OpenError {
    /// What is said of the error.
    pub fn message(self) -> (r: String)
        ensures
            r@ == error_text(self),
    {
        let s: &str = match self {
            OpenError::StreamingFailed => "HLS streaming failed",
            OpenError::NoBytes => "Download produced 0 bytes",
            OpenError::NoSource => "Failed to open media source",
            OpenError::NoVideo => "No video stream",
            OpenError::NoFormat => "No supported video format",
            OpenError::BadDimensions => "Bad dims",
        };
        text::copy_string(s)
    }
}

// ---------------------------------------------------------------------------------------------
// Where a medium is read from
// ---------------------------------------------------------------------------------------------

/// How a medium is opened.
#[derive(Clone, Copy, Debug, PartialEq, Eq, Structural)]
pub enum SourceKind {
    /// An HLS stream: it is downloaded as a whole, if that can be done.
    Hls,
    /// A file on a server: it is read while it is downloaded.
    Direct,
    /// A file on this machine.
    Local,
}

/// How the medium at `url` is opened.
pub open spec fn kind_of_medium(url: Seq<char>) -> SourceKind {
    if !"http"@.is_prefix_of(url) {
        SourceKind::Local
    } else if text::has(url, ".m3u8"@) {
        SourceKind::Hls
    } else {
        SourceKind::Direct
    }
}

/// How the medium at `url` is opened.
pub fn source_kind(url: &str) -> (r: SourceKind)
    ensures
        r == kind_of_medium(url@),
{
    let cs: Vec<char> = text::chars_of(url);
    if !text::starts_with(cs.as_slice(), "http") {
        SourceKind::Local
    } else if text::contains_str(cs.as_slice(), ".m3u8") {
        SourceKind::Hls
    } else {
        SourceKind::Direct
    }
}

/// An HLS stream is in the file that it was downloaded to.
pub open spec fn is_in_a_file(prefetched: Result<HlsPrefetchResult, String>) -> bool {
    match prefetched {
        Ok(result) => !result.is_live,
        Err(_) => false,
    }
}

/// Whether an HLS stream is played from the file that it was downloaded to. A live stream, and one
/// that could not be downloaded as a whole, is read while it is downloaded.
pub fn plays_from_file(prefetched: &Result<HlsPrefetchResult, String>) -> (r: bool)
    ensures
        r == is_in_a_file(*prefetched),
{
    match prefetched {
        Ok(result) => !result.is_live,
        Err(_) => false,
    }
}

/// How many bytes of video are waited for before reading begins.
pub const VIDEO_START_BYTES: usize = 262_144;

/// How many bytes of separate audio are waited for before reading begins.
pub const AUDIO_START_BYTES: usize = 65_536;

/// More bytes are waited for before reading begins.
pub open spec fn awaits_start(buffer: BufferView, start_bytes: usize) -> bool {
    buffer.data.len() < start_bytes && !buffer.eos
}

/// Whether to wait for more bytes before reading begins.
pub fn still_fills(buffer: &StreamBuffer, start_bytes: usize) -> (r: bool)
    ensures
        r == awaits_start(buffer@, start_bytes),
{
    buffer.bytes_held() < start_bytes && !buffer.is_eos()
}

/// The duration of an HLS stream whose buffer has begun to fill, if it can be read.
pub open spec fn duration_in(buffer: BufferView) -> Result<u64, OpenError> {
    if buffer.error || buffer.data.len() == 0 {
        Err(OpenError::StreamingFailed)
    } else {
        Ok(buffer.duration_ms)
    }
}

/// The duration of an HLS stream whose buffer has begun to fill, if it can be read.
pub fn streaming_duration(buffer: &StreamBuffer) -> (r: Result<u64, OpenError>)
    ensures
        r == duration_in(buffer@),
{
    if buffer.has_error() || buffer.bytes_held() == 0 {
        Err(OpenError::StreamingFailed)
    } else {
        Ok(buffer.get_duration_ms())
    }
}

/// Separate audio can be read from its buffer.
pub open spec fn has_sound(buffer: BufferView) -> bool {
    buffer.data.len() > 0 && !buffer.error
}

/// Whether separate audio can be read from its buffer.
pub fn audio_is_usable(buffer: &StreamBuffer) -> (r: bool)
    ensures
        r == has_sound(buffer@),
{
    buffer.bytes_held() > 0 && !buffer.has_error()
}

/// How a file on a server is read.
#[derive(Clone, Copy, Debug, PartialEq, Eq, Structural)]
pub enum DirectSource {
    /// The download failed: the system's own reader is tried.
    SystemReader,
    /// From the buffer that it is downloaded to.
    Buffer,
}

/// How a file on a server is read, once its buffer has begun to fill.
pub open spec fn read_from(buffer: BufferView) -> Result<DirectSource, OpenError> {
    if buffer.error {
        Ok(DirectSource::SystemReader)
    } else if buffer.data.len() == 0 {
        Err(OpenError::NoBytes)
    } else {
        Ok(DirectSource::Buffer)
    }
}

/// How a file on a server is read, once its buffer has begun to fill.
pub fn direct_source(buffer: &StreamBuffer) -> (r: Result<DirectSource, OpenError>)
    ensures
        r == read_from(buffer@),
{
    if buffer.has_error() {
        Ok(DirectSource::SystemReader)
    } else if buffer.bytes_held() == 0 {
        Err(OpenError::NoBytes)
    } else {
        Ok(DirectSource::Buffer)
    }
}

/// The page that the system's own reader names as the one it comes from.
pub open spec fn reader_referer(url: Seq<char>) -> Option<Seq<char>> {
    if text::has(url, "gelbooru.com"@) {
        Some("https://gelbooru.com/"@)
    } else if text::has(url, "donmai.us"@) {
        Some("https://danbooru.donmai.us/"@)
    } else {
        None
    }
}

/// The page that the system's own reader names as the one it comes from.
pub fn system_reader_referer(url: &str) -> (r: Option<&'static str>)
    ensures
        match r {
            Some(referer) => reader_referer(url@) == Some(referer@),
            None => reader_referer(url@) is None,
        },
{
    let cs: Vec<char> = text::chars_of(url);
    if text::contains_str(cs.as_slice(), "gelbooru.com") {
        Some("https://gelbooru.com/")
    } else if text::contains_str(cs.as_slice(), "donmai.us") {
        Some("https://danbooru.donmai.us/")
    } else {
        None
    }
}

// ---------------------------------------------------------------------------------------------
// What the bytes of a buffer are
// ---------------------------------------------------------------------------------------------

/// The content type of the bytes of a buffer.
pub fn content_type(is_ts: bool) -> (r: &'static str)
    ensures
        r@ == (if is_ts {
            "video/mp2t"@
        } else {
            "video/mp4"@
        }),
{
    if is_ts {
        "video/mp2t"
    } else {
        "video/mp4"
    }
}

/// One attempt to find out what the bytes of a buffer are.
#[derive(Clone, Copy, Debug)]
pub struct ResolveAttempt {
    /// A file name that hints at it.
    pub hint: Option<&'static str>,
    /// Flags for the system's resolver, besides the one that asks for a media source.
    pub flags: u32,
}

/// The flag that keeps plug-ins of the application out.
pub const NO_LOCAL_PLUGINS: u32 = 0x40;

/// The file name that hints at what the bytes are.
pub open spec fn hint_name(is_ts: bool) -> Seq<char> {
    if is_ts {
        "dummy.ts"@
    } else {
        "dummy.mp4"@
    }
}

/// An attempt with a hint, or without one.
pub open spec fn is_attempt(a: ResolveAttempt, hint: Option<Seq<char>>, flags: u32) -> bool {
    &&& a.flags == flags
    &&& match a.hint {
        Some(name) => hint == Some(name@),
        None => hint is None,
    }
}

/// The attempts to find out what the bytes of a buffer are, in the order in which they are made;
/// the first that succeeds counts.
pub fn resolve_attempts(is_ts: bool) -> (r: Vec<ResolveAttempt>)
    ensures
        r@.len() == 4,
        is_attempt(r@[0], Some(hint_name(is_ts)), 0),
        is_attempt(r@[1], None, 0),
        is_attempt(r@[2], Some(hint_name(is_ts)), NO_LOCAL_PLUGINS),
        is_attempt(r@[3], None, NO_LOCAL_PLUGINS),
{
    let hint: Option<&'static str> = if is_ts {
        Some("dummy.ts")
    } else {
        Some("dummy.mp4")
    };
    vec![
        ResolveAttempt { hint, flags: 0 },
        ResolveAttempt { hint: None, flags: 0 },
        ResolveAttempt { hint, flags: NO_LOCAL_PLUGINS },
        ResolveAttempt { hint: None, flags: NO_LOCAL_PLUGINS },
    ]
}

// ---------------------------------------------------------------------------------------------
// Streams
// ---------------------------------------------------------------------------------------------

/// What a stream holds.
#[derive(Clone, Copy, Debug, PartialEq, Eq, Structural)]
pub enum StreamKind {
    Video,
    Audio,
    Other,
}

/// How many streams of a medium are looked at.
pub const STREAMS_LOOKED_AT: u32 = 16;

/// The stream at place `i` is the first of its kind, and is looked at.
pub open spec fn is_first(kinds: Seq<StreamKind>, kind: StreamKind, i: int) -> bool {
    &&& 0 <= i < kinds.len()
    &&& i < STREAMS_LOOKED_AT
    &&& kinds[i] == kind
    &&& forall|j: int| 0 <= j < i ==> kinds[j] != kind
}

/// The number of the first stream of a kind, among those that are looked at.
pub fn first_stream(kinds: &[StreamKind], kind: StreamKind) -> (r: Option<u32>)
    ensures
        match r {
            Some(i) => is_first(kinds@, kind, i as int),
            None => forall|i: int|
                0 <= i < kinds@.len() && i < STREAMS_LOOKED_AT ==> kinds@[i] != kind,
        },
{
    let mut i: u32 = 0;
    let n: usize = kinds.len();
    while i < STREAMS_LOOKED_AT && (i as usize) < n
        invariant
            n == kinds@.len(),
            i <= STREAMS_LOOKED_AT,
            i <= n,
            forall|j: int| 0 <= j < i ==> kinds@[j] != kind,
        decreases STREAMS_LOOKED_AT - i,
    {
        if kinds[i as usize] == kind {
            return Some(i);
        }
        i = i + 1;
    }
    None
}

/// The number of the video stream.
pub fn video_stream(kinds: &[StreamKind]) -> (r: Result<u32, OpenError>)
    ensures
        match r {
            Ok(i) => is_first(kinds@, StreamKind::Video, i as int),
            Err(e) => e == OpenError::NoVideo && forall|i: int|
                0 <= i < kinds@.len() && i < STREAMS_LOOKED_AT ==> kinds@[i] != StreamKind::Video,
        },
{
    match first_stream(kinds, StreamKind::Video) {
        Some(i) => Ok(i),
        None => Err(OpenError::NoVideo),
    }
}

/// There is only one first stream of a kind.
pub proof fn law_first_stream_is_one(kinds: Seq<StreamKind>, kind: StreamKind, i: int, j: int)
    requires
        is_first(kinds, kind, i),
        is_first(kinds, kind, j),
    ensures
        i == j,
{
    if i < j {
        assert(kinds[i] != kind);
    } else if j < i {
        assert(kinds[j] != kind);
    }
}

/// The flags that a reader gives say that the streams have ended.
pub open spec fn has_ended(flags: u32) -> bool {
    (flags / 2) % 2 == 1
}

/// The flags that a reader gives say that nothing more will come: the streams have ended, or the
/// lowest flag is set, with which a reader says that it cannot go on.
pub open spec fn is_last(flags: u32) -> bool {
    flags % 2 == 1 || has_ended(flags)
}

/// Whether the flags that a reader gives say that the streams have ended.
pub fn streams_ended(flags: u32) -> (r: bool)
    ensures
        r == has_ended(flags),
{
    assert(flags & 2 != 0 <==> (flags / 2) % 2 == 1) by (bit_vector);
    flags & 2 != 0
}

/// Whether the flags that a reader gives say that nothing more will come.
pub fn nothing_more(flags: u32) -> (r: bool)
    ensures
        r == is_last(flags),
{
    assert(flags & 1 == flags % 2) by (bit_vector);
    flags & 1 != 0 || streams_ended(flags)
}

/// A layout of pixels.
#[derive(Clone, Copy, Debug, PartialEq, Eq, Structural)]
pub enum PictureFormat {
    /// Four bytes a pixel.
    Rgb32,
    /// A plane of brightness and a plane of colours.
    Nv12,
}

/// The layout to ask for, given those that the reader has refused.
pub open spec fn format_to_ask(refused_rgb32: bool, refused_nv12: bool) -> Result<
    PictureFormat,
    OpenError,
> {
    if !refused_rgb32 {
        Ok(PictureFormat::Rgb32)
    } else if !refused_nv12 {
        Ok(PictureFormat::Nv12)
    } else {
        Err(OpenError::NoFormat)
    }
}

/// The layout to ask for, given those that the reader has refused.
pub fn next_format(refused_rgb32: bool, refused_nv12: bool) -> (r: Result<PictureFormat, OpenError>)
    ensures
        r == format_to_ask(refused_rgb32, refused_nv12),
{
    if !refused_rgb32 {
        Ok(PictureFormat::Rgb32)
    } else if !refused_nv12 {
        Ok(PictureFormat::Nv12)
    } else {
        Err(OpenError::NoFormat)
    }
}

/// The width and the height of the pictures.
pub fn picture_size(size: u64) -> (r: Result<(u32, u32), OpenError>)
    ensures
        match r {
            Ok((w, h)) => (w as int, h as int) == pixels::dimensions(size) && w > 0 && h > 0,
            Err(e) => e == OpenError::BadDimensions && (pixels::dimensions(size).0 == 0
                || pixels::dimensions(size).1 == 0),
        },
{
    match pixels::frame_dimensions(size) {
        Some(d) => Ok(d),
        None => Err(OpenError::BadDimensions),
    }
}

/// The duration of a medium: that of its playlist, if it is known, else that which the reader
/// names in ticks, else 0.
pub open spec fn duration_of(ticks: Option<i64>, playlist_ms: u64) -> int {
    if playlist_ms > 0 {
        playlist_ms as int
    } else {
        match ticks {
            Some(t) => units::unsigned(units::cut_quotient(t as int, 10_000) as i64),
            None => 0,
        }
    }
}

/// The duration of a medium: that of its playlist, if it is known, else that which the reader
/// names in ticks, else 0.
pub fn media_duration(ticks: Option<i64>, playlist_ms: u64) -> (r: u64)
    ensures
        r == duration_of(ticks, playlist_ms),
{
    if playlist_ms > 0 {
        playlist_ms
    } else {
        match ticks {
            Some(t) => units::stamp_ms(t),
            None => 0,
        }
    }
}

/// Where the sound comes from.
#[derive(Clone, Copy, Debug, PartialEq, Eq, Structural)]
pub enum AudioSource {
    /// There is none.
    Silent,
    /// From a stream of the medium itself.
    Own(u32),
    /// From a stream of a separate rendition.
    Separate(u32),
}

/// Where the sound comes from: a separate rendition is used only where the medium itself has no
/// audio stream.
pub open spec fn sound_from(own: Option<u32>, separate: Option<u32>) -> AudioSource {
    match (own, separate) {
        (Some(i), _) => AudioSource::Own(i),
        (None, Some(i)) => AudioSource::Separate(i),
        (None, None) => AudioSource::Silent,
    }
}

/// Where the sound comes from: a separate rendition is used only where the medium itself has no
/// audio stream.
pub fn audio_source(own: Option<u32>, separate: Option<u32>) -> (r: AudioSource)
    ensures
        r == sound_from(own, separate),
{
    match own {
        Some(i) => AudioSource::Own(i),
        None => match separate {
            Some(i) => AudioSource::Separate(i),
            None => AudioSource::Silent,
        },
    }
}

// ---------------------------------------------------------------------------------------------
// What opening owes a medium
// ---------------------------------------------------------------------------------------------

/// An address that does not begin with `http` is that of a file on this machine, whatever it holds.
/// Any other is that of segments exactly where `.m3u8` stands anywhere in it.
pub proof fn law_kind_follows_from_the_address(a: Seq<char>, b: Seq<char>)
    ensures
        kind_of_medium("http"@ + a + ".m3u8"@ + b) == SourceKind::Hls,
        kind_of_medium("http"@ + a) != SourceKind::Local,
        !"http"@.is_prefix_of(a) ==> kind_of_medium(a) == SourceKind::Local,
        kind_of_medium(a) == SourceKind::Hls ==> exists|i: int|
            0 <= i && i + 5 <= a.len() && #[trigger] a.subrange(i, i + 5) == ".m3u8"@,
        kind_of_medium(a) == SourceKind::Direct ==> !text::has(a, ".m3u8"@),
{
    reveal_strlit(".m3u8");
    text::law_pattern_is_found_anywhere("http"@ + a, ".m3u8"@, b);
    assert(("http"@ + a).subrange(0, "http"@.len() as int) =~= "http"@);
    assert(("http"@ + a + ".m3u8"@ + b).subrange(0, "http"@.len() as int) =~= "http"@);
    if kind_of_medium(a) == SourceKind::Hls {
        let i = choose|i: int| text::occurs_at(a, ".m3u8"@, i);
        assert(a.subrange(i, i + 5) == ".m3u8"@);
    }
}

/// A stream is played from a file exactly where it was downloaded and is not live.
pub proof fn law_live_streams_are_in_no_file(prefetched: Result<HlsPrefetchResult, String>)
    ensures
        is_in_a_file(prefetched) ==> prefetched is Ok && !prefetched->Ok_0.is_live,
        prefetched is Ok && !prefetched->Ok_0.is_live ==> is_in_a_file(prefetched),
{
}

/// Reading begins once enough bytes are there, or no more will come, and not before. A stream or a
/// file without bytes cannot be read, and one whose download failed is not read from its buffer.
pub proof fn law_reading_begins_with_bytes(b: BufferView, start_bytes: usize, bytes: Seq<u8>)
    ensures
        awaits_start(b, start_bytes) ==> !b.eos && b.data.len() < start_bytes,
        b.eos ==> !awaits_start(b, start_bytes),
        bytes.len() >= start_bytes ==> !awaits_start(b.pushed(bytes), start_bytes),
        b.data.len() < start_bytes && !b.eos ==> awaits_start(b, start_bytes),
        duration_in(b) is Ok <==> b.data.len() > 0 && !b.error,
        duration_in(b) matches Ok(ms) ==> ms == b.duration_ms,
        duration_in(b) matches Err(e) ==> e == OpenError::StreamingFailed,
        has_sound(b) <==> duration_in(b) is Ok,
        read_from(b) == Ok::<DirectSource, OpenError>(DirectSource::SystemReader) <==> b.error,
        !b.error ==> (read_from(b) is Err <==> b.data.len() == 0),
        read_from(b) matches Err(e) ==> e == OpenError::NoBytes,
{
}

/// The page that the reader names is that of the site in the address, and none for any other site.
/// Of the two sites that are known the first counts where both stand there.
pub proof fn law_reader_names_the_site(a: Seq<char>, b: Seq<char>)
    ensures
        reader_referer(a + "gelbooru.com"@ + b) == Some("https://gelbooru.com/"@),
        !text::has(a + "donmai.us"@ + b, "gelbooru.com"@) ==> reader_referer(a + "donmai.us"@ + b)
            == Some("https://danbooru.donmai.us/"@),
        reader_referer(a) is Some ==> text::has(a, "gelbooru.com"@) || text::has(a, "donmai.us"@),
{
    text::law_pattern_is_found_anywhere(a, "gelbooru.com"@, b);
    text::law_pattern_is_found_anywhere(a, "donmai.us"@, b);
}

/// A hint is a file name that ends as a file with such bytes does.
pub proof fn law_hint_ends_with_the_kind(is_ts: bool)
    ensures
        hint_name(true) != hint_name(false),
        ".ts"@.is_suffix_of(hint_name(true)),
        ".mp4"@.is_suffix_of(hint_name(false)),
{
    reveal_strlit("dummy.ts");
    reveal_strlit("dummy.mp4");
    reveal_strlit(".ts");
    reveal_strlit(".mp4");
    assert("dummy.ts"@.subrange(5, 8) =~= ".ts"@);
    assert("dummy.mp4"@.subrange(5, 9) =~= ".mp4"@);
}

/// The streams of a medium are looked at in their order, and sixteen at the most: a stream of a kind
/// that none before it has is the first of it, wherever it stands among those.
pub proof fn law_first_stream_is_found(
    before: Seq<StreamKind>,
    kind: StreamKind,
    behind: Seq<StreamKind>,
)
    requires
        !before.contains(kind),
    ensures
        is_first(before + seq![kind] + behind, kind, before.len() as int) <==> before.len() < 16,
        !is_first(before + behind, kind, before.len() as int - 1),
{
    let kinds = before + seq![kind] + behind;
    assert(kinds[before.len() as int] == kind);
    assert forall|j: int| 0 <= j < before.len() implies kinds[j] != kind by {
        assert(before.contains(before[j]));
    }
    if before.len() > 0 {
        let last = before.len() as int - 1;
        assert((before + behind)[last] == before[last]);
        assert(before.contains(before[last]));
    }
}

/// Of the flags of a reader only the lowest two count: the second says that the streams have ended,
/// and either that nothing more will come.
pub proof fn law_two_flags_count(flags: u32, more: u32)
    requires
        flags < 4,
        flags + 4 * more <= u32::MAX,
    ensures
        has_ended((flags + 4 * more) as u32) <==> flags >= 2,
        is_last((flags + 4 * more) as u32) <==> flags != 0,
{
}

/// A layout is asked for only if the reader has not refused it, the one of four bytes a pixel first,
/// and there is none only where both were refused.
pub proof fn law_refused_layout_is_not_asked_for(refused_rgb32: bool, refused_nv12: bool)
    ensures
        format_to_ask(refused_rgb32, refused_nv12) is Err <==> refused_rgb32 && refused_nv12,
        format_to_ask(refused_rgb32, refused_nv12) matches Err(e) ==> e == OpenError::NoFormat,
        format_to_ask(refused_rgb32, refused_nv12) == Ok::<PictureFormat, OpenError>(
            PictureFormat::Rgb32,
        ) <==> !refused_rgb32,
{
}

/// The playlist knows the duration best; else it is that of the reader, in whole milliseconds, and
/// nothing is known where neither names one.
pub proof fn law_playlist_knows_the_duration(ticks: i64, playlist_ms: u64)
    ensures
        playlist_ms > 0 ==> duration_of(Some(ticks), playlist_ms) == playlist_ms && duration_of(
            None,
            playlist_ms,
        ) == playlist_ms,
        ticks >= 0 ==> duration_of(Some(ticks), 0) * 10_000 <= ticks < duration_of(Some(ticks), 0)
            * 10_000 + 10_000,
        duration_of(None, 0) == 0,
{
}

/// The medium's own sound comes first, a separate one only where it has none, and a stream that is
/// named keeps its number.
pub proof fn law_own_sound_comes_first(own: Option<u32>, separate: Option<u32>)
    ensures
        own matches Some(i) ==> sound_from(own, separate) == AudioSource::Own(i),
        own is None && separate is Some ==> sound_from(own, separate) == AudioSource::Separate(
            separate.unwrap(),
        ),
        sound_from(own, separate) is Silent <==> own is None && separate is None,
{
}

/// An attempt is one with the hint and the flags that it has, and with no others.
pub proof fn law_attempt_has_its_hint(a: ResolveAttempt, hint: Option<Seq<char>>, flags: u32)
    ensures
        is_attempt(a, hint, flags) ==> a.flags == flags,
        a.hint matches Some(name) ==> (is_attempt(a, hint, a.flags) <==> hint == Some(name@)),
        a.hint is None ==> (is_attempt(a, hint, a.flags) <==> hint is None),
{
}

/// Four times as much is waited for of video as of separate audio, which is 64 KiB.
pub proof fn law_video_waits_for_more()
    ensures
        AUDIO_START_BYTES == 64 * 1024,
        VIDEO_START_BYTES == 4 * AUDIO_START_BYTES,
        NO_LOCAL_PLUGINS == 0x40,
{
}

/// Every reason why a medium cannot be opened has a text of its own.
pub proof fn law_texts_tell_errors_apart(a: OpenError, b: OpenError)
    requires
        a != b,
    ensures
        error_text(a) != error_text(b),
        error_text(a).len() > 0,
{
    reveal_strlit("HLS streaming failed");
    reveal_strlit("Download produced 0 bytes");
    reveal_strlit("Failed to open media source");
    reveal_strlit("No video stream");
    reveal_strlit("No supported video format");
    reveal_strlit("Bad dims");
    if error_text(a) == error_text(b) {
        assert(error_text(a).len() == error_text(b).len());
        assert(error_text(a)[0] == error_text(b)[0]);
    }
}

} // verus!
