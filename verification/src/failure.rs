//! What is said where something outside fails: what was tried, and the reason.
use vstd::prelude::*;

use crate::text;

verus! {

/// What was tried.
#[derive(Clone, Copy, Debug, PartialEq, Eq, Structural)]
pub enum Failure {
    /// Fetching the playlist at the address of a stream.
    Playlist,
    /// Fetching the media playlist of the video.
    MediaPlaylist,
    /// Reading a playlist that was fetched.
    PlaylistText,
    /// Fetching the media playlist of separate audio.
    AudioPlaylist,
    /// Reading the media playlist of separate audio.
    AudioPlaylistText,
    /// Fetching an initialisation segment.
    Init,
    /// Writing an initialisation segment.
    InitWrite,
    /// Asking `ffprobe` for the video of a medium.
    VideoProbe,
    /// Asking `ffprobe` for the audio of a medium.
    AudioProbe,
    /// Starting `ffmpeg`.
    Decoder,
    /// Starting `ffplay`.
    Sound,
    /// Setting up the system's objects.
    Objects,
    /// Setting up the system's media framework.
    Framework,
    /// Making what finds out what the bytes of a buffer are.
    Resolver,
    /// Finding out what the bytes of a buffer are.
    Resolving,
    /// Making a reader for a buffer.
    BufferReader,
}

/// What stands before the reason.
pub open spec fn lead(what: Failure) -> Seq<char> {
    match what {
        Failure::Playlist => "HLS playlist fetch failed: "@,
        Failure::MediaPlaylist => "Media playlist fetch failed: "@,
        Failure::PlaylistText => "Read error: "@,
        Failure::AudioPlaylist => "Audio playlist: "@,
        Failure::AudioPlaylistText => "Read: "@,
        Failure::Init => "Init segment failed: "@,
        Failure::InitWrite => "Init write error: "@,
        Failure::VideoProbe => "ffprobe not available: "@,
        Failure::AudioProbe => "ffprobe audio probe failed: "@,
        Failure::Decoder => "failed to spawn ffmpeg: "@,
        Failure::Sound => "failed to spawn ffplay: "@,
        Failure::Objects => "COM: "@,
        Failure::Framework => "MF: "@,
        Failure::Resolver => "MFCreateSourceResolver: "@,
        Failure::Resolving => "Source resolver failed: "@,
        Failure::BufferReader => "Open MediaSource: "@,
    }
}

impl Failure {
    fn lead_text(self) -> (r: &'static str)
        ensures
            r@ == lead(self),
    {
        match self {
            Failure::Playlist => "HLS playlist fetch failed: ",
            Failure::MediaPlaylist => "Media playlist fetch failed: ",
            Failure::PlaylistText => "Read error: ",
            Failure::AudioPlaylist => "Audio playlist: ",
            Failure::AudioPlaylistText => "Read: ",
            Failure::Init => "Init segment failed: ",
            Failure::InitWrite => "Init write error: ",
            Failure::VideoProbe => "ffprobe not available: ",
            Failure::AudioProbe => "ffprobe audio probe failed: ",
            Failure::Decoder => "failed to spawn ffmpeg: ",
            Failure::Sound => "failed to spawn ffplay: ",
            Failure::Objects => "COM: ",
            Failure::Framework => "MF: ",
            Failure::Resolver => "MFCreateSourceResolver: ",
            Failure::Resolving => "Source resolver failed: ",
            Failure::BufferReader => "Open MediaSource: ",
        }
    }

    /// What is said of the failure.
    pub fn message(self, reason: &str) -> (r: String)
        ensures
            r@ == lead(self) + reason@,
    {
        let mut cs: Vec<char> = text::chars_of(self.lead_text());
        text::push_str(&mut cs, reason);
        text::string_of(cs.as_slice())
    }
}

/// What is said where the file at `path` could not be made.
pub fn file_failure(path: &str, reason: &str) -> (r: String)
    ensures
        r@ == "Failed to create cache file "@ + path@ + ": "@ + reason@,
{
    let mut cs: Vec<char> = text::chars_of("Failed to create cache file ");
    text::push_str(&mut cs, path);
    text::push_str(&mut cs, ": ");
    text::push_str(&mut cs, reason);
    text::string_of(cs.as_slice())
}

/// What is said where a part of a file could not be written: a segment by its place, or the
/// initialisation segment.
pub open spec fn write_failure_text(segment: Option<usize>, reason: Seq<char>) -> Seq<char> {
    match segment {
        Some(place) => "Segment "@ + text::decimal(place as nat) + " write error: "@ + reason,
        None => lead(Failure::InitWrite) + reason,
    }
}

/// What is said where a part of a file could not be written.
pub fn write_failure(segment: Option<usize>, reason: &str) -> (r: String)
    ensures
        r@ == write_failure_text(segment, reason@),
{
    match segment {
        Some(place) => {
            let mut cs: Vec<char> = text::chars_of("Segment ");
            let digits: Vec<char> = text::to_decimal(place as u128);
            text::push_all(&mut cs, digits.as_slice());
            text::push_str(&mut cs, " write error: ");
            text::push_str(&mut cs, reason);
            text::string_of(cs.as_slice())
        },
        None => Failure::InitWrite.message(reason),
    }
}

/// What is said of a failure ends with its reason, to the last character: two reasons give two texts.
/// What stands before the reason ends with a colon and a space.
pub proof fn law_reason_is_told_whole(what: Failure, reason: Seq<char>, other: Seq<char>)
    ensures
        reason.is_suffix_of(lead(what) + reason),
        lead(what) + reason == lead(what) + other ==> reason == other,
        lead(what).len() >= 4,
        lead(what).last() == ' ',
        lead(what)[lead(what).len() - 2] == ':',
{
    reveal_strlit("HLS playlist fetch failed: ");
    reveal_strlit("Media playlist fetch failed: ");
    reveal_strlit("Read error: ");
    reveal_strlit("Audio playlist: ");
    reveal_strlit("Read: ");
    reveal_strlit("Init segment failed: ");
    reveal_strlit("Init write error: ");
    reveal_strlit("ffprobe not available: ");
    reveal_strlit("ffprobe audio probe failed: ");
    reveal_strlit("failed to spawn ffmpeg: ");
    reveal_strlit("failed to spawn ffplay: ");
    reveal_strlit("COM: ");
    reveal_strlit("MF: ");
    reveal_strlit("MFCreateSourceResolver: ");
    reveal_strlit("Source resolver failed: ");
    reveal_strlit("Open MediaSource: ");
    let a = lead(what) + reason;
    let b = lead(what) + other;
    assert(a.subrange(a.len() - reason.len(), a.len() as int) =~= reason);
    assert(a.skip(lead(what).len() as int) =~= reason);
    assert(b.skip(lead(what).len() as int) =~= other);
}

/// Every failure has a text of its own, so that the text says what was tried.
pub proof fn law_texts_tell_failures_apart(a: Failure, b: Failure)
    requires
        a != b,
    ensures
        lead(a) != lead(b),
{
    reveal_strlit("HLS playlist fetch failed: ");
    reveal_strlit("Media playlist fetch failed: ");
    reveal_strlit("Read error: ");
    reveal_strlit("Audio playlist: ");
    reveal_strlit("Read: ");
    reveal_strlit("Init segment failed: ");
    reveal_strlit("Init write error: ");
    reveal_strlit("ffprobe not available: ");
    reveal_strlit("ffprobe audio probe failed: ");
    reveal_strlit("failed to spawn ffmpeg: ");
    reveal_strlit("failed to spawn ffplay: ");
    reveal_strlit("COM: ");
    reveal_strlit("MF: ");
    reveal_strlit("MFCreateSourceResolver: ");
    reveal_strlit("Source resolver failed: ");
    reveal_strlit("Open MediaSource: ");
    if lead(a) == lead(b) {
        assert(lead(a).len() == lead(b).len());
        assert(lead(a)[0] == lead(b)[0]);
        if lead(a).len() == 24 {
            assert(lead(a)[18] == lead(b)[18]);
        }
    }
}

/// A segment that could not be written is named by its number and the reason: two numbers, or two
/// reasons, give two texts.
pub proof fn law_segment_is_named(place: usize, other: usize, reason: Seq<char>, because: Seq<char>)
    ensures
        reason.is_suffix_of(write_failure_text(Some(place), reason)),
        reason.is_suffix_of(write_failure_text(None, reason)),
        write_failure_text(Some(place), reason) == write_failure_text(Some(place), because)
            ==> reason == because,
        write_failure_text(Some(place), reason) == write_failure_text(Some(other), reason) ==> place
            == other,
{
    let head = "Segment "@ + text::decimal(place as nat) + " write error: "@;
    let a = head + reason;
    let b = head + because;
    assert(a.subrange(a.len() - reason.len(), a.len() as int) =~= reason);
    assert(a.skip(head.len() as int) =~= reason);
    assert(b.skip(head.len() as int) =~= because);
    let none = lead(Failure::InitWrite) + reason;
    assert(none.subrange(none.len() - reason.len(), none.len() as int) =~= reason);
    let c = write_failure_text(Some(other), reason);
    if a == c {
        let n = text::decimal(place as nat);
        let m = text::decimal(other as nat);
        let s = "Segment "@.len() as int;
        assert(n.len() == m.len());
        assert(a.subrange(s, s + n.len()) =~= n);
        assert(c.subrange(s, s + m.len()) =~= m);
        text::law_decimals_are_distinct(place as nat, other as nat);
    }
}

} // verus!
