//! Downloading a recorded rendition as a whole: many workers fetch its segments in any order, and
//! the file holds them in their order.
use vstd::hash_set::StringHashSet;
use vstd::prelude::*;

use crate::failure::Failure;
use crate::playlist::HlsSegment;
use crate::text;

verus! {

/// What became of the attempt to download a stream as a whole.
pub struct HlsPrefetchResult {
    /// The path of the file with the video.
    pub video_file: String,
    /// The path of the file with the audio, where that is separate.
    pub audio_file: Option<String>,
    /// The duration of the stream.
    pub duration_ms: u64,
    /// The stream is live: nothing was downloaded.
    pub is_live: bool,
}

impl HlsPrefetchResult {
    /// The result for a live stream.
    pub fn live() -> (r: HlsPrefetchResult)
        ensures
            r.video_file@ == Seq::<char>::empty(),
            r.audio_file is None,
            r.duration_ms == 0,
            r.is_live,
    {
        HlsPrefetchResult {
            video_file: String::new(),
            audio_file: None,
            duration_ms: 0,
            is_live: true,
        }
    }

    /// The result for a recorded stream that was downloaded.
    pub fn recorded(video_file: String, audio_file: Option<String>, duration_ms: u64) -> (r:
        HlsPrefetchResult)
        ensures
            r.video_file == video_file,
            r.audio_file == audio_file,
            r.duration_ms == duration_ms,
            !r.is_live,
    {
        HlsPrefetchResult { video_file, audio_file, duration_ms, is_live: false }
    }
}

/// The result for a recorded stream, given what became of the download of its video and, where that
/// is separate, of its audio: the stream is there only where both are.
pub fn prefetched(
    video: Result<String, String>,
    audio: Option<Result<String, String>>,
    duration_ms: u64,
) -> (r: Result<HlsPrefetchResult, String>)
    ensures
        match (video, audio) {
            (Err(e), _) => r == Err::<HlsPrefetchResult, String>(e),
            (Ok(_), Some(Err(e))) => r == Err::<HlsPrefetchResult, String>(e),
            (Ok(v), Some(Ok(a))) => r == Ok::<HlsPrefetchResult, String>(
                HlsPrefetchResult {
                    video_file: v,
                    audio_file: Some(a),
                    duration_ms,
                    is_live: false,
                },
            ),
            (Ok(v), None) => r == Ok::<HlsPrefetchResult, String>(
                HlsPrefetchResult { video_file: v, audio_file: None, duration_ms, is_live: false },
            ),
        },
{
    match video {
        Err(e) => Err(e),
        Ok(video_file) => match audio {
            Some(Err(e)) => Err(e),
            Some(Ok(audio_file)) => Ok(
                HlsPrefetchResult::recorded(video_file, Some(audio_file), duration_ms),
            ),
            None => Ok(HlsPrefetchResult::recorded(video_file, None, duration_ms)),
        },
    }
}

/// The initialisation segment of a rendition, given what the server answered, where one was asked
/// for. Without it the rendition cannot be downloaded.
pub fn take_init(answer: Option<Result<Vec<u8>, String>>) -> (r: Result<Option<Vec<u8>>, String>)
    ensures
        match answer {
            Some(Ok(bytes)) => r == Ok::<Option<Vec<u8>>, String>(Some(bytes)),
            Some(Err(reason)) => r matches Err(e) && e@ == "Init segment failed: "@ + reason@,
            None => r == Ok::<Option<Vec<u8>>, String>(None),
        },
{
    match answer {
        Some(Ok(bytes)) => Ok(Some(bytes)),
        Some(Err(reason)) => Err(Failure::Init.message(reason.as_str())),
        None => Ok(None),
    }
}

// ---------------------------------------------------------------------------------------------
// The work and its results
// ---------------------------------------------------------------------------------------------

/// A segment that waits for a worker: its address and its place.
#[verifier::ext_equal]
pub struct Work {
    /// Its address.
    pub url: Seq<char>,
    /// Its place among the segments.
    pub index: int,
}

/// How far the download of the segments has come.
#[verifier::ext_equal]
pub struct BoardView {
    /// The segments that no worker has taken.
    pub queue: Seq<Work>,
    /// What was downloaded of each segment.
    pub results: Seq<Option<Seq<u8>>>,
    /// How many segments are done with.
    pub done: u64,
}

/// The view of optional bytes.
pub open spec fn bytes_view(b: Option<Vec<u8>>) -> Option<Seq<u8>> {
    match b {
        Some(v) => Some(v@),
        None => None,
    }
}

/// The view of a row of optional bytes.
pub open spec fn results_view(v: Seq<Option<Vec<u8>>>) -> Seq<Option<Seq<u8>>> {
    v.map_values(|b: Option<Vec<u8>>| bytes_view(b))
}

/// The view of a row of segments.
pub open spec fn work_view(v: Seq<HlsSegment>) -> Seq<Work> {
    v.map_values(|s: HlsSegment| Work { url: s.url@, index: s.index as int })
}

/// The bytes of the first `n` segments, one behind the other; a missing segment leaves a gap.
pub open spec fn joined(results: Seq<Option<Seq<u8>>>, n: int) -> Seq<u8>
    decreases n,
{
    if n <= 0 {
        Seq::empty()
    } else {
        match results[n - 1] {
            Some(bytes) => joined(results, n - 1) + bytes,
            None => joined(results, n - 1),
        }
    }
}

/// What stands in the file: the initialisation segment, then the segments in their order.
pub open spec fn file_image(init: Option<Seq<u8>>, results: Seq<Option<Seq<u8>>>) -> Seq<u8> {
    match init {
        Some(bytes) => bytes + joined(results, results.len() as int),
        None => joined(results, results.len() as int),
    }
}

impl BoardView {
    /// The place of every segment that waits is a place on the board.
    pub open spec fn places_fit(self) -> bool {
        forall|i: int|
            0 <= i < self.queue.len() ==> 0 <= (#[trigger] self.queue[i]).index
                < self.results.len()
    }

    /// The board once a segment is done with. A segment of which nothing came stays missing.
    pub open spec fn finished(self, index: int, bytes: Seq<u8>) -> BoardView {
        BoardView {
            results: if bytes.len() > 0 {
                self.results.update(index, Some(bytes))
            } else {
                self.results
            },
            done: (if self.done == u64::MAX {
                0
            } else {
                self.done + 1
            }) as u64,
            ..self
        }
    }
}

/// A part of the file.
pub struct FilePart<'a> {
    /// The place of the segment, nothing for the initialisation segment.
    pub segment: Option<usize>,
    /// The bytes.
    pub bytes: &'a [u8],
}

/// The bytes of the parts, one behind the other.
pub open spec fn parts_image(parts: Seq<FilePart<'_>>) -> Seq<u8>
    decreases parts.len(),
{
    if parts.len() == 0 {
        Seq::empty()
    } else {
        parts_image(parts.drop_last()) + parts.last().bytes@
    }
}

/// The parts that the first `n` segments make: the place and the bytes of each that is not missing.
pub open spec fn layout(results: Seq<Option<Seq<u8>>>, n: int) -> Seq<(Option<int>, Seq<u8>)>
    decreases n,
{
    if n <= 0 {
        Seq::empty()
    } else {
        match results[n - 1] {
            Some(bytes) => layout(results, n - 1).push((Some(n - 1), bytes)),
            None => layout(results, n - 1),
        }
    }
}

/// The parts that make the file: the initialisation segment, which has no place, then the segments.
pub open spec fn file_layout(init: Option<Seq<u8>>, results: Seq<Option<Seq<u8>>>) -> Seq<
    (Option<int>, Seq<u8>),
> {
    match init {
        Some(bytes) => seq![(None::<int>, bytes)] + layout(results, results.len() as int),
        None => layout(results, results.len() as int),
    }
}

/// The place and the bytes of a part.
pub open spec fn part_view(part: FilePart<'_>) -> (Option<int>, Seq<u8>) {
    (
        match part.segment {
            Some(k) => Some(k as int),
            None => None,
        },
        part.bytes@,
    )
}

/// The places and the bytes of a row of parts.
pub open spec fn part_views(parts: Seq<FilePart<'_>>) -> Seq<(Option<int>, Seq<u8>)> {
    parts.map_values(|p: FilePart<'_>| part_view(p))
}

/// The segments of a rendition while workers download them.
pub struct SegmentBoard {
    queue: Vec<HlsSegment>,
    results: Vec<Option<Vec<u8>>>,
    done: u64,
}

impl View for SegmentBoard {
    type V = BoardView;

    closed spec fn view(&self) -> BoardView {
        BoardView {
            queue: work_view(self.queue@),
            results: results_view(self.results@),
            done: self.done,
        }
    }
}

impl SegmentBoard {
    /// A board on which all segments wait.
    pub fn new(segments: Vec<HlsSegment>) -> (r: SegmentBoard)
        requires
            forall|i: int|
                0 <= i < segments@.len() ==> (#[trigger] segments@[i]).index < segments@.len(),
        ensures
            r@.queue == work_view(segments@),
            r@.results == Seq::new(segments@.len(), |i: int| None::<Seq<u8>>),
            r@.done == 0,
            r@.places_fit(),
    {
        let n: usize = segments.len();
        let mut results: Vec<Option<Vec<u8>>> = Vec::new();
        let mut i: usize = 0;
        while i < n
            invariant
                i <= n,
                results@.len() == i,
                forall|j: int| 0 <= j < i ==> results@[j] is None,
            decreases n - i,
        {
            results.push(None);
            i = i + 1;
        }
        let r: SegmentBoard = SegmentBoard { queue: segments, results, done: 0 };
        assert(r@.results =~= Seq::new(segments@.len(), |i: int| None::<Seq<u8>>));
        r
    }

    /// How many segments there are.
    pub fn total(&self) -> (r: usize)
        ensures
            r == self@.results.len(),
    {
        self.results.len()
    }

    /// How many segments are done with.
    pub fn done(&self) -> (r: u64)
        ensures
            r == self@.done,
    {
        self.done
    }

    /// Takes a segment off the board: the last one that waits.
    pub fn take(&mut self) -> (r: Option<HlsSegment>)
        ensures
            r is None <==> old(self)@.queue.len() == 0,
            r matches Some(s) ==> old(self)@.queue.last() == (Work {
                url: s.url@,
                index: s.index as int,
            }),
            final(self)@ == (BoardView {
                queue: if old(self)@.queue.len() > 0 {
                    old(self)@.queue.drop_last()
                } else {
                    old(self)@.queue
                },
                ..old(self)@
            }),
            old(self)@.places_fit() ==> final(self)@.places_fit(),
    {
        let ghost before = self.queue@;
        let r: Option<HlsSegment> = self.queue.pop();
        proof {
            if before.len() > 0 {
                assert(work_view(before).last() == work_view(before)[before.len() - 1]);
                assert(work_view(self.queue@) =~= work_view(before).drop_last());
                if old(self)@.places_fit() {
                    assert forall|i: int| 0 <= i < self@.queue.len() implies 0
                        <= (#[trigger] self@.queue[i]).index < self@.results.len() by {
                        assert(self@.queue[i] == old(self)@.queue[i]);
                    }
                }
            }
        }
        r
    }

    /// Puts down that a segment is done with, and what was downloaded of it.
    pub fn finish(&mut self, index: usize, bytes: Vec<u8>)
        requires
            index < old(self)@.results.len(),
        ensures
            final(self)@ == old(self)@.finished(index as int, bytes@),
            old(self)@.places_fit() ==> final(self)@.places_fit(),
    {
        let ghost before = self.results@;
        if bytes.len() > 0 {
            let ghost b = bytes@;
            self.results.set(index, Some(bytes));
            assert(results_view(self.results@) =~= results_view(before).update(
                index as int,
                Some(b),
            ));
        }
        self.done = self.done.wrapping_add(1);
    }

    /// The parts that make the file, in the order in which they stand there.
    pub fn file_parts<'a>(&'a self, init: Option<&'a [u8]>) -> (parts: Vec<FilePart<'a>>)
        ensures
            parts_image(parts@) == file_image(
                match init {
                    Some(bytes) => Some(bytes@),
                    None => None,
                },
                self@.results,
            ),
            part_views(parts@) == file_layout(
                match init {
                    Some(bytes) => Some(bytes@),
                    None => None,
                },
                self@.results,
            ),
    {
        let mut parts: Vec<FilePart<'a>> = Vec::new();
        let ghost head: Seq<u8> = match init {
            Some(bytes) => bytes@,
            None => Seq::empty(),
        };
        let ghost first: Seq<(Option<int>, Seq<u8>)> = match init {
            Some(bytes) => seq![(None::<int>, bytes@)],
            None => Seq::empty(),
        };
        assert(parts_image(parts@) =~= Seq::<u8>::empty());
        if let Some(bytes) = init {
            parts.push(FilePart { segment: None, bytes });
            assert(parts@.drop_last() =~= Seq::empty());
            assert(Seq::<u8>::empty() + head =~= head);
        }
        assert(part_views(parts@) =~= first + layout(self@.results, 0));
        let mut i: usize = 0;
        assert(head + joined(self@.results, 0) =~= head);
        while i < self.results.len()
            invariant
                i <= self.results@.len(),
                parts_image(parts@) == head + joined(self@.results, i as int),
                part_views(parts@) == first + layout(self@.results, i as int),
            decreases self.results@.len() - i,
        {
            assert(self@.results[i as int] == bytes_view(self.results@[i as int]));
            let ghost before = parts@;
            if let Some(bytes) = &self.results[i] {
                parts.push(FilePart { segment: Some(i), bytes: bytes.as_slice() });
                assert(parts@.drop_last() =~= before);
                assert(part_views(parts@) =~= part_views(before).push((Some(i as int), bytes@)));
                assert(part_views(parts@) =~= first + layout(self@.results, i + 1));
                assert((head + joined(self@.results, i as int)) + bytes@ =~= head + (joined(
                    self@.results,
                    i as int,
                ) + bytes@));
            }
            i = i + 1;
        }
        assert(head + joined(self@.results, i as int) =~= file_image(
            match init {
                Some(bytes) => Some(bytes@),
                None => None,
            },
            self@.results,
        ));
        assert(first + layout(self@.results, i as int) =~= file_layout(
            match init {
                Some(bytes) => Some(bytes@),
                None => None,
            },
            self@.results,
        ));
        parts
    }
}

/// How many workers download so many segments.
pub open spec fn workers(segments: int) -> int {
    if segments < 32 {
        segments
    } else {
        32
    }
}

/// How many workers download so many segments.
pub fn worker_count(segments: usize) -> (r: usize)
    ensures
        r == workers(segments as int),
{
    if segments < 32 {
        segments
    } else {
        32
    }
}

// ---------------------------------------------------------------------------------------------
// Fetching one segment
// ---------------------------------------------------------------------------------------------

/// What a worker does next about its segment.
#[derive(Clone, Copy, Debug, PartialEq, Eq, Structural)]
pub enum FetchStep {
    /// It is done with the segment.
    Done,
    /// It asks again at once.
    Again,
    /// It asks again after half a second.
    AfterPause,
}

/// A worker's attempts to fetch a segment.
pub struct SegmentFetch {
    /// How many requests failed.
    pub failures: u32,
    /// What the last answer brought.
    pub bytes: Vec<u8>,
}

impl SegmentFetch {
    /// The worker goes on only while fewer than three requests have failed.
    pub open spec fn wf(self) -> bool {
        self.failures < 3
    }

    /// No attempt was made.
    pub fn new() -> (r: SegmentFetch)
        ensures
            r.wf(),
            r.failures == 0,
            r.bytes@ == Seq::<u8>::empty(),
    {
        SegmentFetch { failures: 0, bytes: Vec::new() }
    }

    /// The server answered; `complete` says that the answer could be read to its end.
    pub fn answered(&mut self, bytes: Vec<u8>, complete: bool) -> (r: FetchStep)
        ensures
            final(self).failures == old(self).failures,
            final(self).bytes@ == bytes@,
            r == (if complete {
                FetchStep::Done
            } else {
                FetchStep::Again
            }),
    {
        self.bytes = bytes;
        if complete {
            FetchStep::Done
        } else {
            FetchStep::Again
        }
    }

    /// The request failed. The third failure is the last.
    pub fn failed(&mut self) -> (r: FetchStep)
        requires
            old(self).wf(),
        ensures
            final(self).failures == old(self).failures + 1,
            final(self).bytes == old(self).bytes,
            r == (if old(self).failures == 2 {
                FetchStep::Done
            } else {
                FetchStep::AfterPause
            }),
            r != FetchStep::Done ==> final(self).wf(),
    {
        self.failures = self.failures + 1;
        if self.failures >= 3 {
            FetchStep::Done
        } else {
            FetchStep::AfterPause
        }
    }
}

// ---------------------------------------------------------------------------------------------
// The file's name
// ---------------------------------------------------------------------------------------------

/// The name of the file for a rendition that was downloaded at the given time.
pub open spec fn cache_name(label: Seq<char>, timestamp: nat, is_ts: bool) -> Seq<char> {
    "snek_hls_cache_"@ + label + "_"@ + text::decimal(timestamp) + (if is_ts {
        ".ts"@
    } else {
        ".mp4"@
    })
}

/// The name of the file for a rendition that was downloaded at the given time.
pub fn cache_filename(label: &str, timestamp: u128, is_ts: bool) -> (r: String)
    ensures
        r@ == cache_name(label@, timestamp as nat, is_ts),
{
    let mut cs: Vec<char> = text::chars_of("snek_hls_cache_");
    text::push_str(&mut cs, label);
    text::push_str(&mut cs, "_");
    let digits: Vec<char> = text::to_decimal(timestamp);
    text::push_all(&mut cs, digits.as_slice());
    if is_ts {
        text::push_str(&mut cs, ".ts");
    } else {
        text::push_str(&mut cs, ".mp4");
    }
    text::string_of(cs.as_slice())
}

/// The name with the stamp `t` is the first that was not given, from the time `now` on.
pub open spec fn is_first_free(
    given: Set<Seq<char>>,
    label: Seq<char>,
    now: nat,
    is_ts: bool,
    t: nat,
) -> bool {
    &&& now <= t
    &&& !given.contains(cache_name(label, t, is_ts))
    &&& forall|k: nat| now <= k < t ==> given.contains(#[trigger] cache_name(label, k, is_ts))
}

/// The name of a file that is made at the time `now`: that with the time as its stamp or, where that
/// name was given before, the first behind it that was not.
pub open spec fn fresh_name(
    given: Set<Seq<char>>,
    label: Seq<char>,
    now: nat,
    is_ts: bool,
) -> Seq<char> {
    cache_name(label, choose|t: nat| is_first_free(given, label, now, is_ts, t), is_ts)
}

/// The names that were given to files: no name is given twice.
pub struct FileNames {
    given: StringHashSet,
}

impl View for FileNames {
    type V = Set<Seq<char>>;

    closed spec fn view(&self) -> Set<Seq<char>> {
        self.given@
    }
}

impl FileNames {
    /// Only so many names were given.
    pub open spec fn wf(self) -> bool {
        self@.finite()
    }

    /// No name was given.
    pub fn new() -> (r: FileNames)
        ensures
            r@ == Set::<Seq<char>>::empty(),
            r.wf(),
    {
        FileNames { given: StringHashSet::new() }
    }

    /// Whether there are certainly names left from the time `now` on.
    pub fn has_room(&self, now: u128) -> (r: bool)
        ensures
            r == (now + self@.len() <= u128::MAX),
    {
        now <= u128::MAX - self.given.len() as u128
    }

    /// The name of the next file, which is made at the time `now`. It has the time as its stamp, unless
    /// that name was given before.
    pub fn next(&mut self, label: &str, now: u128, is_ts: bool) -> (r: String)
        requires
            old(self).wf(),
            now + old(self)@.len() <= u128::MAX,
        ensures
            r@ == fresh_name(old(self)@, label@, now as nat, is_ts),
            !old(self)@.contains(r@),
            final(self)@ == old(self)@.insert(r@),
            final(self).wf(),
            !old(self)@.contains(cache_name(label@, now as nat, is_ts)) ==> r@ == cache_name(
                label@,
                now as nat,
                is_ts,
            ),
    {
        let ghost given = self@;
        proof {
            lemma_free_exists(given, label@, now as nat, is_ts);
        }
        let ghost free = choose|t: nat|
            is_first_free(given, label@, now as nat, is_ts, t) && t <= now + given.len();
        let mut stamp: u128 = now;
        let mut name: String = cache_filename(label, stamp, is_ts);
        while self.given.contains(name.as_str())
            invariant
                given == self@,
                now + given.len() <= u128::MAX,
                is_first_free(given, label@, now as nat, is_ts, free),
                free <= now + given.len(),
                now <= stamp <= free,
                name@ == cache_name(label@, stamp as nat, is_ts),
            decreases free - stamp,
        {
            stamp = stamp + 1;
            name = cache_filename(label, stamp, is_ts);
        }
        proof {
            if stamp < free {
                assert(given.contains(cache_name(label@, stamp as nat, is_ts)));
            }
            lemma_fresh_name(given, label@, now as nat, is_ts, free);
            if !given.contains(cache_name(label@, now as nat, is_ts)) && free > now {
                assert(given.contains(cache_name(label@, now as nat, is_ts)));
            }
        }
        let copy: String = text::copy_string(name.as_str());
        self.given.insert(copy);
        name
    }
}

/// Among the first names from a time on, one more than were given, one is free.
proof fn lemma_free_exists(given: Set<Seq<char>>, label: Seq<char>, now: nat, is_ts: bool)
    requires
        given.finite(),
    ensures
        exists|t: nat|
            is_first_free(given, label, now, is_ts, t) && t <= now + given.len(),
{
    if forall|k: nat|
        now <= k <= now + given.len() ==> given.contains(#[trigger] cache_name(label, k, is_ts)) {
        let names = lemma_names(given, label, now, is_ts, given.len() + 1);
        vstd::set_lib::lemma_len_subset(names, given);
        assert(false);
    } else {
        let k = choose|k: nat|
            now <= k <= now + given.len() && !given.contains(#[trigger] cache_name(label, k, is_ts));
        lemma_first_free_below(given, label, now, is_ts, k);
    }
}

/// The first `n` names from a time on are `n` names.
proof fn lemma_names(
    given: Set<Seq<char>>,
    label: Seq<char>,
    now: nat,
    is_ts: bool,
    n: nat,
) -> (names: Set<Seq<char>>)
    requires
        forall|k: nat| now <= k < now + n ==> given.contains(#[trigger] cache_name(label, k, is_ts)),
    ensures
        names.finite(),
        names.len() == n,
        names.subset_of(given),
        forall|name: Seq<char>| #[trigger]
            names.contains(name) ==> exists|k: nat|
                now <= k < now + n && name == cache_name(label, k, is_ts),
    decreases n,
{
    if n == 0 {
        Set::empty()
    } else {
        let last = (now + n - 1) as nat;
        let before = lemma_names(given, label, now, is_ts, (n - 1) as nat);
        let name = cache_name(label, last, is_ts);
        if before.contains(name) {
            let k = choose|k: nat| now <= k < now + n - 1 && name == cache_name(label, k, is_ts);
            law_file_names_are_distinct(k, last, label, label, is_ts, is_ts);
        }
        let names = before.insert(name);
        assert forall|x: Seq<char>| #[trigger] names.contains(x) implies exists|k: nat|
            now <= k < now + n && x == cache_name(label, k, is_ts) by {
            if x == name {
                assert(now <= last < now + n);
            } else {
                let k = choose|k: nat| now <= k < now + n - 1 && x == cache_name(label, k, is_ts);
                assert(now <= k < now + n);
            }
        }
        names
    }
}

/// Up to a free name there is a first free one.
proof fn lemma_first_free_below(
    given: Set<Seq<char>>,
    label: Seq<char>,
    now: nat,
    is_ts: bool,
    k: nat,
)
    requires
        now <= k,
        !given.contains(cache_name(label, k, is_ts)),
    ensures
        exists|t: nat| is_first_free(given, label, now, is_ts, t) && t <= k,
    decreases k,
{
    if forall|j: nat| now <= j < k ==> given.contains(#[trigger] cache_name(label, j, is_ts)) {
        assert(is_first_free(given, label, now, is_ts, k));
    } else {
        let j = choose|j: nat|
            now <= j < k && !given.contains(#[trigger] cache_name(label, j, is_ts));
        lemma_first_free_below(given, label, now, is_ts, j);
        let t = choose|t: nat| is_first_free(given, label, now, is_ts, t) && t <= j;
        assert(is_first_free(given, label, now, is_ts, t) && t <= k);
    }
}

/// There is only one first free name.
proof fn lemma_fresh_name(
    given: Set<Seq<char>>,
    label: Seq<char>,
    now: nat,
    is_ts: bool,
    t: nat,
)
    requires
        is_first_free(given, label, now, is_ts, t),
    ensures
        fresh_name(given, label, now, is_ts) == cache_name(label, t, is_ts),
{
    let k = choose|k: nat| is_first_free(given, label, now, is_ts, k);
    assert(is_first_free(given, label, now, is_ts, k));
    if k < t {
        assert(given.contains(cache_name(label, k, is_ts)));
    } else if t < k {
        assert(given.contains(cache_name(label, t, is_ts)));
    }
}

// ---------------------------------------------------------------------------------------------
// Laws
// ---------------------------------------------------------------------------------------------

/// The order in which the workers finish does not matter: two segments leave the same board
/// whichever is done first.
pub proof fn law_finishing_order_does_not_matter(
    b: BoardView,
    i: int,
    first: Seq<u8>,
    j: int,
    second: Seq<u8>,
)
    requires
        0 <= i < b.results.len(),
        0 <= j < b.results.len(),
        i != j,
    ensures
        b.finished(i, first).finished(j, second) == b.finished(j, second).finished(i, first),
{
    assert(b.finished(i, first).finished(j, second).results =~= b.finished(j, second).finished(
        i,
        first,
    ).results);
}

/// A segment's bytes stand in the file behind those of all segments before it and before those of
/// all segments behind it.
pub proof fn law_segments_stand_in_order(
    init: Option<Seq<u8>>,
    results: Seq<Option<Seq<u8>>>,
    i: int,
)
    requires
        0 <= i < results.len(),
        results[i] is Some,
    ensures
        ({
            let head = match init {
                Some(bytes) => bytes.len(),
                None => 0,
            };
            let from = head + joined(results, i).len();
            let to = from + results[i].unwrap().len();
            &&& to <= file_image(init, results).len()
            &&& file_image(init, results).subrange(from as int, to as int) == results[i].unwrap()
        }),
{
    let all = joined(results, results.len() as int);
    lemma_joined_prefix(results, i, i + 1);
    lemma_joined_prefix(results, i + 1, results.len() as int);
    let before = joined(results, i);
    let bytes = results[i].unwrap();
    assert(joined(results, i + 1) == before + bytes);
    assert(all.subrange(before.len() as int, (before.len() + bytes.len()) as int) =~= bytes) by {
        assert(all.take((before + bytes).len() as int) == before + bytes);
        assert forall|k: int| 0 <= k < bytes.len() implies all[before.len() + k] == bytes[k] by {
            assert(all.take((before + bytes).len() as int)[before.len() + k] == (before
                + bytes)[before.len() + k]);
        }
    }
    let image = file_image(init, results);
    match init {
        Some(head) => {
            let from = (head.len() + before.len()) as int;
            let to = from + bytes.len();
            assert(image == head + all);
            assert(image.subrange(from, to) =~= all.subrange(
                before.len() as int,
                (before.len() + bytes.len()) as int,
            ));
        },
        None => {},
    }
}

proof fn lemma_joined_prefix(results: Seq<Option<Seq<u8>>>, i: int, n: int)
    requires
        0 <= i <= n <= results.len(),
    ensures
        joined(results, i).len() <= joined(results, n).len(),
        joined(results, n).take(joined(results, i).len() as int) == joined(results, i),
    decreases n,
{
    if i < n {
        lemma_joined_prefix(results, i, n - 1);
        let a = joined(results, i);
        let m = joined(results, n - 1);
        if let Some(bytes) = results[n - 1] {
            assert((m + bytes).take(a.len() as int) =~= m.take(a.len() as int));
        }
    } else {
        assert(joined(results, n).take(joined(results, n).len() as int) =~= joined(results, n));
    }
}

/// Only the initialisation segment has no place, and it stands first; every other part is a segment
/// that came, and the places go up.
pub proof fn law_parts_are_numbered(
    init: Option<Seq<u8>>,
    results: Seq<Option<Seq<u8>>>,
    i: int,
    j: int,
)
    requires
        0 <= i < j < file_layout(init, results).len(),
    ensures
        ({
            let parts = file_layout(init, results);
            &&& parts[i].0 is None <==> i == 0 && init is Some
            &&& match parts[j].0 {
                Some(k) => {
                    &&& 0 <= k < results.len()
                    &&& results[k] == Some(parts[j].1)
                    &&& parts[i].0 matches Some(l) ==> l < k
                },
                None => false,
            }
        }),
{
    lemma_layout(results, results.len() as int);
    let rest = layout(results, results.len() as int);
    match init {
        Some(bytes) => {
            assert(file_layout(init, results)[j] == rest[j - 1]);
            if i > 0 {
                assert(file_layout(init, results)[i] == rest[i - 1]);
            }
        },
        None => {},
    }
}

/// The parts of the segments have places, which go up, and hold what came.
proof fn lemma_layout(results: Seq<Option<Seq<u8>>>, n: int)
    requires
        0 <= n <= results.len(),
    ensures
        forall|i: int|
            0 <= i < layout(results, n).len() ==> match (#[trigger] layout(results, n)[i]).0 {
                Some(k) => 0 <= k < n && results[k] == Some(layout(results, n)[i].1),
                None => false,
            },
        forall|i: int, j: int|
            0 <= i < j < layout(results, n).len() ==> (#[trigger] layout(results, n)[i]).0.unwrap()
                < (#[trigger] layout(results, n)[j]).0.unwrap(),
    decreases n,
{
    if n > 0 {
        lemma_layout(results, n - 1);
        let before = layout(results, n - 1);
        let all = layout(results, n);
        assert forall|i: int| 0 <= i < all.len() implies match (#[trigger] all[i]).0 {
            Some(k) => 0 <= k < n && results[k] == Some(all[i].1),
            None => false,
        } by {
            if i < before.len() {
                assert(all[i] == before[i]);
            }
        }
        assert forall|i: int, j: int| 0 <= i < j < all.len() implies (#[trigger] all[i]).0.unwrap()
            < (#[trigger] all[j]).0.unwrap() by {
            assert(all[i] == before[i]);
            if j < before.len() {
                assert(all[j] == before[j]);
            }
        }
    }
}

/// A segment of which nothing came leaves a gap: the file is as if it were not there.
pub proof fn law_missing_segment_leaves_a_gap(results: Seq<Option<Seq<u8>>>, i: int)
    requires
        0 <= i < results.len(),
        results[i] is None,
    ensures
        joined(results, i + 1) == joined(results, i),
{
}

/// Files with different stamps have different names, whatever their labels and kinds; and a file of
/// video never has the name of one of audio.
pub proof fn law_file_names_are_distinct(
    t1: nat,
    t2: nat,
    label1: Seq<char>,
    label2: Seq<char>,
    ts1: bool,
    ts2: bool,
)
    ensures
        t1 != t2 ==> cache_name(label1, t1, ts1) != cache_name(label2, t2, ts2),
        cache_name("video"@, t1, ts1) != cache_name("audio"@, t2, ts2),
{
    reveal_strlit("snek_hls_cache_");
    reveal_strlit("_");
    reveal_strlit(".ts");
    reveal_strlit(".mp4");
    reveal_strlit("video");
    reveal_strlit("audio");
    let a = cache_name(label1, t1, ts1);
    let b = cache_name(label2, t2, ts2);
    if a == b {
        assert(a.last() == (if ts1 {
            's'
        } else {
            '4'
        }));
        assert(b.last() == (if ts2 {
            's'
        } else {
            '4'
        }));
        let tail = if ts1 {
            ".ts"@
        } else {
            ".mp4"@
        };
        let head1 = "snek_hls_cache_"@ + label1 + "_"@;
        let head2 = "snek_hls_cache_"@ + label2 + "_"@;
        let d1 = text::decimal(t1);
        let d2 = text::decimal(t2);
        text::lemma_decimal_digits(t1);
        text::lemma_decimal_digits(t2);
        let n = a.len() - tail.len();
        assert(n == head1.len() + d1.len() && n == head2.len() + d2.len());
        assert(a[head1.len() - 1] == '_');
        assert(b[head2.len() - 1] == '_');
        if d1.len() < d2.len() {
            assert(b[head1.len() - 1] == d2[head1.len() - 1 - head2.len()]);
        } else if d2.len() < d1.len() {
            assert(a[head2.len() - 1] == d1[head2.len() - 1 - head1.len()]);
        }
        assert(a.subrange(head1.len() as int, n) =~= d1);
        assert(b.subrange(head2.len() as int, n) =~= d2);
    }
    assert(cache_name("video"@, t1, ts1)[15] == 'v');
    assert(cache_name("audio"@, t2, ts2)[15] == 'a');
}

/// A file never gets the name of a file that was made before, even where the clock stands still or
/// runs backwards; and it gets the name with the clock's time, unless that was given.
pub proof fn law_no_name_is_given_twice(
    given: Set<Seq<char>>,
    label: Seq<char>,
    now: nat,
    is_ts: bool,
    earlier: Seq<char>,
)
    requires
        given.finite(),
        given.contains(earlier),
    ensures
        fresh_name(given, label, now, is_ts) != earlier,
        !given.contains(cache_name(label, now, is_ts)) ==> fresh_name(given, label, now, is_ts)
            == cache_name(label, now, is_ts),
{
    lemma_free_exists(given, label, now, is_ts);
    let t = choose|t: nat| is_first_free(given, label, now, is_ts, t) && t <= now + given.len();
    lemma_fresh_name(given, label, now, is_ts, t);
    if t > now {
        assert(given.contains(cache_name(label, now, is_ts)));
    }
}

/// Files with different labels or kinds do not stand in each other's way: where none of the names
/// that were given has the label and the kind, a file gets the name with the clock's time.
pub proof fn law_video_and_audio_keep_the_time(
    given: Set<Seq<char>>,
    now: nat,
    is_ts: bool,
    audio_stamp: nat,
    audio_ts: bool,
)
    requires
        given.finite(),
        !given.contains(cache_name("video"@, now, is_ts)),
    ensures
        fresh_name(
            given.insert(cache_name("audio"@, audio_stamp, audio_ts)),
            "video"@,
            now,
            is_ts,
        ) == cache_name("video"@, now, is_ts),
{
    let all = given.insert(cache_name("audio"@, audio_stamp, audio_ts));
    law_file_names_are_distinct(now, audio_stamp, "video"@, "audio"@, is_ts, audio_ts);
    law_no_name_is_given_twice(
        all,
        "video"@,
        now,
        is_ts,
        cache_name("audio"@, audio_stamp, audio_ts),
    );
}

// ---------------------------------------------------------------------------------------------
// What the download owes the stream
// ---------------------------------------------------------------------------------------------

/// What was downloaded of a segment is kept, every byte of it, at the segment's own place, and
/// nowhere else: no other place changes, and no segment is taken off the queue. A download without
/// bytes changes no place. Either way one more segment is done with.
pub proof fn law_download_is_kept_whole(b: BoardView, index: int, bytes: Seq<u8>, other: int)
    requires
        0 <= index < b.results.len(),
        0 <= other < b.results.len(),
    ensures
        ({
            let after = b.finished(index, bytes);
            &&& after.results.len() == b.results.len()
            &&& after.queue == b.queue
            &&& bytes.len() > 0 ==> after.results[index] == Some(bytes)
            &&& bytes.len() == 0 ==> after.results[index] == b.results[index]
            &&& other != index ==> after.results[other] == b.results[other]
            &&& b.done < u64::MAX ==> after.done == b.done + 1
        }),
{
}

/// A segment that was not downloaded before makes the file longer by just its bytes, which stand
/// behind those of the segments before it.
pub proof fn law_downloaded_bytes_reach_the_file(
    b: BoardView,
    init: Option<Seq<u8>>,
    index: int,
    bytes: Seq<u8>,
)
    requires
        0 <= index < b.results.len(),
        b.results[index] is None,
    ensures
        ({
            let before = file_image(init, b.results.take(index));
            let prior = file_image(init, b.results);
            let after = file_image(init, b.finished(index, bytes).results);
            after == before + bytes + prior.skip(before.len() as int)
        }),
{
    let n = b.results.len() as int;
    let results = b.finished(index, bytes).results;
    let front = b.results.take(index);
    lemma_joined_same(b.results, front, index);
    lemma_joined_same(results, front, index);
    lemma_joined_prefix(b.results, index, n);
    lemma_joined_inserted(b.results, results, index, bytes, n);
    let joint = joined(front, index);
    match init {
        Some(head) => {
            assert((head + joined(b.results, n)).skip((head + joint).len() as int) =~= joined(
                b.results,
                n,
            ).skip(joint.len() as int));
            assert(head + (joint + bytes + joined(b.results, n).skip(joint.len() as int)) =~= (head
                + joint) + bytes + joined(b.results, n).skip(joint.len() as int));
        },
        None => {},
    }
}

proof fn lemma_joined_same(a: Seq<Option<Seq<u8>>>, b: Seq<Option<Seq<u8>>>, n: int)
    requires
        n <= a.len(),
        n <= b.len(),
        forall|i: int| 0 <= i < n ==> a[i] == b[i],
    ensures
        joined(a, n) == joined(b, n),
        layout(a, n) == layout(b, n),
    decreases n,
{
    if n > 0 {
        lemma_joined_same(a, b, n - 1);
    }
}

proof fn lemma_joined_inserted(
    prior: Seq<Option<Seq<u8>>>,
    results: Seq<Option<Seq<u8>>>,
    index: int,
    bytes: Seq<u8>,
    n: int,
)
    requires
        0 <= index < n <= prior.len(),
        prior.len() == results.len(),
        prior[index] is None,
        results[index] == (if bytes.len() > 0 {
            Some(bytes)
        } else {
            None
        }),
        forall|i: int| 0 <= i < prior.len() && i != index ==> results[i] == prior[i],
    ensures
        joined(prior, index).len() <= joined(prior, n).len(),
        joined(results, n) == joined(prior, index) + bytes + joined(prior, n).skip(
            joined(prior, index).len() as int,
        ),
    decreases n,
{
    let joint = joined(prior, index);
    lemma_joined_prefix(prior, index, n);
    if n == index + 1 {
        lemma_joined_same(results, prior, index);
        assert(joined(prior, n) == joint);
        assert(joint.skip(joint.len() as int) =~= Seq::<u8>::empty());
        assert(joined(results, n) =~= joint + bytes);
        assert(joint + bytes + Seq::<u8>::empty() =~= joint + bytes);
    } else {
        let m = n - 1;
        lemma_joined_inserted(prior, results, index, bytes, m);
        assert(results[m] == prior[m]);
        match prior[m] {
            Some(more) => {
                assert((joined(prior, m) + more).skip(joint.len() as int) =~= joined(prior, m).skip(
                    joint.len() as int,
                ) + more);
                assert(joint + bytes + joined(prior, m).skip(joint.len() as int) + more =~= joint
                    + bytes + (joined(prior, m).skip(joint.len() as int) + more));
            },
            None => {},
        }
    }
}

/// The file is the initialisation segment and behind it all segments that were downloaded, one behind
/// the other: another segment at the end adds its bytes, and one that is missing adds none.
pub proof fn law_file_grows_by_its_segments(
    init: Seq<u8>,
    results: Seq<Option<Seq<u8>>>,
    bytes: Seq<u8>,
)
    ensures
        file_image(None, Seq::empty()) == Seq::<u8>::empty(),
        file_image(Some(init), results) == init + file_image(None, results),
        file_image(None, results.push(Some(bytes))) == file_image(None, results) + bytes,
        file_image(None, results.push(None)) == file_image(None, results),
{
    let n = results.len() as int;
    lemma_joined_same(results, results.push(Some(bytes)), n);
    lemma_joined_same(results, results.push(None), n);
}

/// Where all segments were downloaded the file holds all of them, from the first byte to the last.
pub proof fn law_whole_stream_is_in_the_file(segments: Seq<Seq<u8>>)
    ensures
        file_image(None, segments.map_values(|bytes: Seq<u8>| Some(bytes))) == segments.flatten(),
    decreases segments.len(),
{
    segments.lemma_flatten_and_flatten_alt_are_equivalent();
    let results = segments.map_values(|bytes: Seq<u8>| Some(bytes));
    if segments.len() > 0 {
        let before = segments.drop_last();
        let front = before.map_values(|bytes: Seq<u8>| Some(bytes));
        law_whole_stream_is_in_the_file(before);
        before.lemma_flatten_and_flatten_alt_are_equivalent();
        lemma_joined_same(results, front, before.len() as int);
        assert(results[before.len() as int] == Some(segments.last()));
    }
}

/// The parts of the file are named as they stand there: the initialisation segment first and without
/// a number, then every segment that was downloaded with its own number and its own bytes.
pub proof fn law_parts_are_the_segments(
    init: Seq<u8>,
    results: Seq<Option<Seq<u8>>>,
    bytes: Seq<u8>,
)
    ensures
        file_layout(None, Seq::empty()) == Seq::<(Option<int>, Seq<u8>)>::empty(),
        file_layout(Some(init), results) == seq![(None::<int>, init)] + file_layout(None, results),
        file_layout(None, results.push(Some(bytes))) == file_layout(None, results).push(
            (Some(results.len() as int), bytes),
        ),
        file_layout(None, results.push(None)) == file_layout(None, results),
{
    let n = results.len() as int;
    lemma_joined_same(results, results.push(Some(bytes)), n);
    lemma_joined_same(results, results.push(None), n);
}

/// The name of a file begins with the mark of the cache and the label, holds the time, and ends with
/// the kind of its contents. Two names are alike only if label, time and kind are.
pub proof fn law_file_name_says_what_it_is(
    label: Seq<char>,
    other: Seq<char>,
    time: nat,
    is_ts: bool,
    other_ts: bool,
)
    ensures
        cache_name(label, time, true) == "snek_hls_cache_"@ + label + "_"@ + text::decimal(time)
            + ".ts"@,
        cache_name(label, time, false).len() == cache_name(label, time, true).len() + 1,
        cache_name(label, time, false).last() == '4',
        cache_name(label, time, is_ts) == cache_name(other, time, other_ts) ==> label == other
            && is_ts == other_ts,
{
    reveal_strlit("snek_hls_cache_");
    reveal_strlit("_");
    reveal_strlit(".ts");
    reveal_strlit(".mp4");
    let a = cache_name(label, time, is_ts);
    let b = cache_name(other, time, other_ts);
    if a == b {
        assert(is_ts <==> a.last() == 's');
        assert(other_ts <==> b.last() == 's');
        assert(a.subrange(15, 15int + label.len()) =~= label);
        assert(b.subrange(15, 15int + other.len()) =~= other);
    }
}

/// A file is named after the first moment from now on whose name was not given before.
pub proof fn law_first_free_moment_is_taken(
    given: Set<Seq<char>>,
    label: Seq<char>,
    now: nat,
    is_ts: bool,
    t: nat,
)
    requires
        now <= t,
        !given.contains(cache_name(label, t, is_ts)),
        forall|k: nat| now <= k < t ==> given.contains(#[trigger] cache_name(label, k, is_ts)),
    ensures
        fresh_name(given, label, now, is_ts) == cache_name(label, t, is_ts),
{
    lemma_fresh_name(given, label, now, is_ts, t);
}

/// There is a worker for every segment, up to 32 of them.
pub proof fn law_workers_are_as_many_as_segments(segments: int)
    requires
        segments >= 0,
    ensures
        workers(segments) <= 32,
        workers(segments) <= segments,
        segments <= 32 ==> workers(segments) == segments,
        segments >= 32 ==> workers(segments) == 32,
{
}

/// What is shown of the board is what it holds: every segment with its address and its place, and
/// every byte that was downloaded.
pub proof fn law_board_is_shown_as_it_is(
    results: Seq<Option<Vec<u8>>>,
    segments: Seq<HlsSegment>,
    parts: Seq<FilePart<'_>>,
    i: int,
)
    ensures
        results_view(results).len() == results.len(),
        0 <= i < results.len() && results[i] is Some ==> results_view(results)[i] == Some(
            results[i].unwrap()@,
        ),
        0 <= i < results.len() && results[i] is None ==> results_view(results)[i] is None,
        work_view(segments).len() == segments.len(),
        0 <= i < segments.len() ==> work_view(segments)[i].url == segments[i].url@
            && work_view(segments)[i].index == segments[i].index,
        part_views(parts).len() == parts.len(),
        0 <= i < parts.len() ==> part_views(parts)[i].1 == parts[i].bytes@,
        0 <= i < parts.len() && parts[i].segment is Some ==> part_views(parts)[i].0 == Some(
            parts[i].segment.unwrap() as int,
        ),
        0 <= i < parts.len() && parts[i].segment is None ==> part_views(parts)[i].0 is None,
{
}

/// The parts of the file, written one behind the other, are the file.
pub proof fn law_parts_are_written_in_order(parts: Seq<FilePart<'_>>)
    ensures
        parts_image(parts) == parts.map_values(|p: FilePart<'_>| p.bytes@).flatten(),
    decreases parts.len(),
{
    let bytes = parts.map_values(|p: FilePart<'_>| p.bytes@);
    bytes.lemma_flatten_and_flatten_alt_are_equivalent();
    if parts.len() > 0 {
        let front = parts.drop_last();
        let head = front.map_values(|p: FilePart<'_>| p.bytes@);
        law_parts_are_written_in_order(front);
        head.lemma_flatten_and_flatten_alt_are_equivalent();
        assert(bytes.drop_last() =~= head);
        assert(bytes.last() == parts.last().bytes@);
    }
}

/// On a board whose places fit every segment that waits has a place for what is downloaded of it.
pub proof fn law_waiting_segments_have_a_place(b: BoardView, index: int, bytes: Seq<u8>, i: int)
    requires
        b.places_fit(),
        0 <= index < b.results.len(),
        0 <= i < b.queue.len(),
    ensures
        0 <= b.queue[i].index < b.results.len(),
        b.finished(index, bytes).places_fit(),
{
    let after = b.finished(index, bytes);
    assert forall|k: int| 0 <= k < after.queue.len() implies 0 <= (#[trigger] after.queue[k]).index
        < after.results.len() by {
        assert(after.queue[k] == b.queue[k]);
    }
}

} // verus!
