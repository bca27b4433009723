//! Copying the streams of a medium into another container.
use std::collections::HashMap;
use vstd::prelude::*;

use crate::source;
use crate::source::StreamKind;
use crate::text;

verus! {

/// Why a medium cannot be copied.
#[derive(Clone, Copy, Debug, PartialEq, Eq, Structural)]
pub enum RemuxError {
    /// It has no stream of video or audio.
    NoStreams,
    /// This system cannot do it.
    Unsupported,
}

impl RemuxError {
    /// What is said of the error.
    pub fn message(self) -> (r: String)
        ensures
            r@ == (match self {
                RemuxError::NoStreams => "No streams found"@,
                RemuxError::Unsupported => "Remuxing is only supported on Windows"@,
            }),
    {
        let s: &str = match self {
            RemuxError::NoStreams => "No streams found",
            RemuxError::Unsupported => "Remuxing is only supported on Windows",
        };
        text::copy_string(s)
    }
}

/// A container for streams.
#[derive(Clone, Copy, Debug, PartialEq, Eq, Structural)]
pub enum Container {
    Mpeg2,
    Mpeg4,
}

/// The container that streams are copied into: MPEG-TS stays in the container it belongs to.
pub fn container_for(is_ts: bool) -> (r: Container)
    ensures
        r == (if is_ts {
            Container::Mpeg2
        } else {
            Container::Mpeg4
        }),
{
    if is_ts {
        Container::Mpeg2
    } else {
        Container::Mpeg4
    }
}

/// A stream is copied.
pub open spec fn is_copied(kind: StreamKind) -> bool {
    kind == StreamKind::Video || kind == StreamKind::Audio
}

/// Whether a stream is copied.
pub fn copies(kind: StreamKind) -> (r: bool)
    ensures
        r == is_copied(kind),
{
    kind == StreamKind::Video || kind == StreamKind::Audio
}

/// What to do about what the reader gave.
#[derive(Clone, Copy, Debug, PartialEq, Eq, Structural)]
pub enum RemuxStep {
    /// The streams have ended.
    End,
    /// There is nothing to write.
    Skip,
    /// The sample is written to this stream.
    Write(u32),
}

/// Which stream of the source goes to which stream of the copy.
pub struct StreamMap {
    sinks: HashMap<u32, u32>,
}

impl View for StreamMap {
    type V = Map<u32, u32>;

    closed spec fn view(&self) -> Map<u32, u32> {
        self.sinks@
    }
}

/// What becomes of a sample, given which stream goes where, whether the streams have ended, the
/// number of its stream and whether there is a sample at all.
pub open spec fn routed(sinks: Map<u32, u32>, ended: bool, stream: u32, present: bool) -> RemuxStep {
    if ended {
        RemuxStep::End
    } else if present && sinks.contains_key(stream) {
        RemuxStep::Write(sinks[stream])
    } else {
        RemuxStep::Skip
    }
}

impl StreamMap {
    /// A map without streams.
    pub fn new() -> (r: StreamMap)
        ensures
            r@ == Map::<u32, u32>::empty(),
    {
        StreamMap { sinks: HashMap::new() }
    }

    /// Sends a stream of the source to a stream of the copy.
    pub fn connect(&mut self, source: u32, sink: u32)
        ensures
            final(self)@ == old(self)@.insert(source, sink),
    {
        broadcast use vstd::std_specs::hash::group_hash_axioms;

        let _ = self.sinks.insert(source, sink);
    }

    /// Whether there is anything to copy.
    pub fn ready(&self) -> (r: Result<(), RemuxError>)
        ensures
            r == (if self@.dom() =~= Set::<u32>::empty() {
                Err::<(), RemuxError>(RemuxError::NoStreams)
            } else {
                Ok::<(), RemuxError>(())
            }),
    {
        broadcast use vstd::std_specs::hash::group_hash_axioms;

        if self.sinks.is_empty() {
            assert(self@.dom() =~= Set::<u32>::empty());
            Err(RemuxError::NoStreams)
        } else {
            Ok(())
        }
    }

    /// What becomes of a sample, given the flags, the number of its stream and whether there is a
    /// sample at all.
    pub fn route(&self, flags: u32, stream: u32, present: bool) -> (r: RemuxStep)
        ensures
            r == routed(self@, source::has_ended(flags), stream, present),
    {
        broadcast use vstd::std_specs::hash::group_hash_axioms;

        if source::streams_ended(flags) {
            return RemuxStep::End;
        }
        if present {
            if let Some(sink) = self.sinks.get(&stream) {
                return RemuxStep::Write(*sink);
            }
        }
        RemuxStep::Skip
    }
}

/// A sample goes to the stream that its own was connected to last, and one of a stream that was not
/// connected goes nowhere. At the end nothing is written.
pub proof fn law_samples_follow_their_stream(
    sinks: Map<u32, u32>,
    source: u32,
    sink: u32,
    other: u32,
    present: bool,
)
    ensures
        routed(sinks.insert(source, sink), false, source, true) == RemuxStep::Write(sink),
        other != source ==> routed(sinks.insert(source, sink), false, other, present) == routed(
            sinks,
            false,
            other,
            present,
        ),
        routed(sinks, true, source, present) == RemuxStep::End,
        routed(sinks, false, source, false) == RemuxStep::Skip,
        routed(Map::empty(), false, source, present) == RemuxStep::Skip,
{
}

/// Pictures and sound are copied, and nothing else.
pub proof fn law_pictures_and_sound_are_copied(kind: StreamKind)
    ensures
        is_copied(kind) <==> !(kind is Other),
{
}

} // verus!
