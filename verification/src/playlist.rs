//! HLS playlists: which renditions a master playlist offers and which segments a media playlist
//! names.
use vstd::prelude::*;
use vstd::slice::slice_subrange;

use crate::text;

verus! {

// ---------------------------------------------------------------------------------------------
// Addresses
// ---------------------------------------------------------------------------------------------

/// The address that a playlist at `base` means by `relative`: an absolute address as it is, another
/// in the place of what stands behind the last slash of `base`.
pub open spec fn resolved(base: Seq<char>, relative: Seq<char>) -> Seq<char> {
    if "http"@.is_prefix_of(relative) {
        relative
    } else {
        match text::last_index_of_char(base, '/') {
            Some(i) => base.take(i) + "/"@ + relative,
            None => relative,
        }
    }
}

/// The address that a playlist at `base` means by `relative`.
pub fn resolve_url(base: &str, relative: &str) -> (url: String)
    ensures
        url@ == resolved(base@, relative@),
{
    let b: Vec<char> = text::chars_of(base);
    let r: Vec<char> = text::chars_of(relative);
    let url: Vec<char> = resolve(b.as_slice(), r.as_slice());
    text::string_of(url.as_slice())
}

fn resolve(base: &[char], relative: &[char]) -> (url: Vec<char>)
    ensures
        url@ == resolved(base@, relative@),
{
    if text::starts_with(relative, "http") {
        return vstd::slice::slice_to_vec(relative);
    }
    match text::rfind_char(base, '/') {
        Some(i) => {
            let mut url: Vec<char> = vstd::slice::slice_to_vec(slice_subrange(base, 0, i));
            text::push_str(&mut url, "/");
            text::push_all(&mut url, relative);
            url
        },
        None => vstd::slice::slice_to_vec(relative),
    }
}

/// Resolving is done once: against an absolute base, an address that was resolved resolves to
/// itself.
pub proof fn law_resolving_is_idempotent(base: Seq<char>, relative: Seq<char>)
    requires
        "http"@.is_prefix_of(base),
    ensures
        resolved(base, resolved(base, relative)) == resolved(base, relative),
{
    reveal_strlit("http");
    if !"http"@.is_prefix_of(relative) {
        if let Some(i) = text::last_index_of_char(base, '/') {
            lemma_last_slash(base, i);
            let url = resolved(base, relative);
            assert(base[0] == 'h' && base[1] == 't' && base[2] == 't' && base[3] == 'p') by {
                let p = base.subrange(0, 4);
                assert(p == "http"@);
                assert(p[0] == base[0] && p[1] == base[1] && p[2] == base[2] && p[3] == base[3]);
            }
            assert(i >= 4);
            assert(url.subrange(0, 4) == "http"@);
        }
    }
}

proof fn lemma_last_slash(base: Seq<char>, i: int)
    requires
        text::last_index_of_char(base, '/') == Some(i),
    ensures
        0 <= i < base.len(),
        base[i] == '/',
    decreases base.len(),
{
    lemma_last_char_exists(base, '/');
}

proof fn lemma_last_char_exists(s: Seq<char>, c: char)
    requires
        s.contains(c),
    ensures
        exists|i: int| text::last_char_at(s, c, i),
    decreases s.len(),
{
    if s.last() == c {
        assert(text::last_char_at(s, c, s.len() - 1));
    } else {
        let k = choose|k: int| 0 <= k < s.len() && s[k] == c;
        assert(s.drop_last()[k] == c);
        lemma_last_char_exists(s.drop_last(), c);
        let i = choose|i: int| text::last_char_at(s.drop_last(), c, i);
        assert forall|j: int| i < j < s.len() implies s[j] != c by {
            if j < s.len() - 1 {
                assert(s.drop_last()[j] != c);
            }
        }
        assert(text::last_char_at(s, c, i));
    }
}

// ---------------------------------------------------------------------------------------------
// Master playlists
// ---------------------------------------------------------------------------------------------

/// A character of which names of attributes are made.
pub open spec fn is_name_char(c: char) -> bool {
    'A' <= c <= 'Z' || '0' <= c <= '9' || c == '-'
}

/// The attribute `BANDWIDTH` stands in a line at `p`. A longer name that ends like it, such as that of
/// the average, is another attribute.
pub open spec fn names_bandwidth(line: Seq<char>, p: int) -> bool {
    text::occurs_at(line, "BANDWIDTH="@, p) && (p == 0 || !is_name_char(line[p - 1]))
}

/// The attribute `BANDWIDTH` stands in a line at `p`, and nowhere before.
pub open spec fn first_bandwidth(line: Seq<char>, p: int) -> bool {
    names_bandwidth(line, p) && forall|j: int| 0 <= j < p ==> !names_bandwidth(line, j)
}

/// The number that a value of an attribute begins with: it ends at the next comma or, where there is
/// none, at the next space; 0 where that is no number.
pub open spec fn value_number(value: Seq<char>) -> nat {
    let digits = if value.contains(',') {
        text::before_char(value, ',')
    } else {
        text::before_char(value, ' ')
    };
    match text::number(digits, u64::MAX as nat) {
        Some(n) => n,
        None => 0,
    }
}

/// The bandwidth that a variant's line names: the number behind `BANDWIDTH=`. Where the line lacks
/// that attribute, but one with a longer name ends like it, the number behind the first such counts;
/// 0 where there is neither.
pub open spec fn bandwidth(line: Seq<char>) -> nat {
    if exists|p: int| names_bandwidth(line, p) {
        let p = choose|p: int| first_bandwidth(line, p);
        value_number(line.skip(p + 10))
    } else {
        match text::index_of(line, "BANDWIDTH="@) {
            Some(p) => value_number(line.skip(p + 10)),
            None => 0,
        }
    }
}

/// Line `i` describes a variant whose address the next line gives.
pub open spec fn is_variant(lines: Seq<Seq<char>>, i: int) -> bool {
    &&& 0 <= i
    &&& i + 1 < lines.len()
    &&& "#EXT-X-STREAM-INF"@.is_prefix_of(lines[i])
}

/// Line `i` describes the variant to play: none has a higher bandwidth, and none behind it has the
/// same.
pub open spec fn is_best_variant(lines: Seq<Seq<char>>, i: int) -> bool {
    &&& is_variant(lines, i)
    &&& forall|j: int| #[trigger]
        is_variant(lines, j) ==> bandwidth(lines[j]) <= bandwidth(lines[i]) && (j > i ==> bandwidth(
            lines[j],
        ) < bandwidth(lines[i]))
}

/// The line of the variant to play, if there is a variant.
pub open spec fn best_variant(lines: Seq<Seq<char>>) -> Option<int> {
    if exists|i: int| is_variant(lines, i) {
        Some(choose|i: int| is_best_variant(lines, i))
    } else {
        None
    }
}

/// The quoted text behind `tag`, which ends with the opening quote.
pub open spec fn quoted_behind(s: Seq<char>, tag: Seq<char>) -> Option<Seq<char>> {
    match text::index_of(s, tag) {
        Some(p) => {
            let value = s.skip(p + tag.len());
            match text::index_of_char(value, '"') {
                Some(e) => Some(value.take(e)),
                None => None,
            }
        },
        None => None,
    }
}

/// The address of the separate audio rendition that a line describes, if it describes one.
pub open spec fn audio_uri(line: Seq<char>) -> Option<Seq<char>> {
    if "#EXT-X-MEDIA:"@.is_prefix_of(line) && text::has(line, "TYPE=AUDIO"@) {
        quoted_behind(line, "URI=\""@)
    } else {
        None
    }
}

/// The address of the last audio rendition among the first `n` lines.
pub open spec fn last_audio_uri(lines: Seq<Seq<char>>, n: int) -> Option<Seq<char>>
    decreases n,
{
    if n <= 0 {
        None
    } else if audio_uri(lines[n - 1]) is Some {
        audio_uri(lines[n - 1])
    } else {
        last_audio_uri(lines, n - 1)
    }
}

/// A master playlist, as opposed to a media playlist.
pub open spec fn is_master(playlist: Seq<char>) -> bool {
    text::has(playlist, "#EXT-X-STREAM-INF"@)
}

/// The address of the video rendition that the playlist at `url` leads to.
pub open spec fn video_rendition(url: Seq<char>, playlist: Seq<char>) -> Seq<char> {
    let lines = text::line_seq(playlist);
    match best_variant(lines) {
        Some(i) if is_master(playlist) => {
            let variant = resolved(url, text::trimmed(lines[i + 1]));
            if variant.len() > 0 {
                variant
            } else {
                url
            }
        },
        _ => url,
    }
}

/// The address of the separate audio rendition that the playlist at `url` leads to, if any.
pub open spec fn audio_rendition(url: Seq<char>, playlist: Seq<char>) -> Option<Seq<char>> {
    let lines = text::line_seq(playlist);
    match last_audio_uri(lines, lines.len() as int) {
        Some(uri) if is_master(playlist) => Some(resolved(url, uri)),
        _ => None,
    }
}

/// The renditions to play.
pub struct Renditions {
    /// The address of the media playlist of the video.
    pub video_url: String,
    /// The address of the media playlist of the audio, where that is separate.
    pub audio_url: Option<String>,
}

/// Why a text is no playlist.
#[derive(Clone, Copy, Debug, PartialEq, Eq, Structural)]
pub enum PlaylistError {
    /// The text lacks the mark `#EXTM3U`.
    NotM3u8,
}

impl PlaylistError {
    /// The message for the user.
    pub fn message(&self) -> (msg: String)
        ensures
            msg@ == "Invalid M3U8 file"@,
    {
        match self {
            PlaylistError::NotM3u8 => text::copy_string("Invalid M3U8 file"),
        }
    }
}

/// The view of an optional string.
pub open spec fn opt_view(s: Option<String>) -> Option<Seq<char>> {
    match s {
        Some(t) => Some(t@),
        None => None,
    }
}

fn stands_bandwidth(line: &[char], tag: &[char], p: usize) -> (r: bool)
    requires
        tag@ == "BANDWIDTH="@,
        p < line@.len(),
    ensures
        r == names_bandwidth(line@, p as int),
{
    if !text::stands_at(line, tag, p) {
        return false;
    }
    if p == 0 {
        return true;
    }
    let c: char = line[p - 1];
    !(('A' <= c && c <= 'Z') || ('0' <= c && c <= '9') || c == '-')
}

fn read_value(line: &[char], from: usize) -> (bw: u64)
    requires
        from <= line@.len(),
    ensures
        bw == value_number(line@.skip(from as int)),
{
    let n: usize = line.len();
    let value: &[char] = slice_subrange(line, from, n);
    assert(value@ == line@.skip(from as int));
    let digits: &[char] = match text::find_char(value, ',') {
        Some(e) => slice_subrange(value, 0, e),
        None => text::until_char(value, ' '),
    };
    match text::parse_number(digits, u64::MAX) {
        Some(bw) => bw,
        None => 0,
    }
}

fn line_bandwidth(line: &[char]) -> (bw: u64)
    ensures
        bw == bandwidth(line@),
{
    let tag: Vec<char> = text::chars_of("BANDWIDTH=");
    proof {
        reveal_strlit("BANDWIDTH=");
    }
    let n: usize = line.len();
    let mut p: usize = 0;
    while p < n
        invariant
            n == line@.len(),
            p <= n,
            tag@ == "BANDWIDTH="@,
            "BANDWIDTH="@.len() == 10,
            forall|j: int| 0 <= j < p ==> !names_bandwidth(line@, j),
        decreases n - p,
    {
        if stands_bandwidth(line, tag.as_slice(), p) {
            proof {
                lemma_first_bandwidth(line@, p as int);
            }
            return read_value(line, p + 10);
        }
        p = p + 1;
    }
    assert forall|j: int| !names_bandwidth(line@, j) by {
        if 0 <= j < n {
            assert(!names_bandwidth(line@, j));
        }
    }
    match text::find(line, tag.as_slice()) {
        Some(p) => read_value(line, p + 10),
        None => 0,
    }
}

/// The first place of the attribute is the only first one.
proof fn lemma_first_bandwidth(line: Seq<char>, p: int)
    requires
        first_bandwidth(line, p),
    ensures
        bandwidth(line) == value_number(line.skip(p + 10)),
{
    let k = choose|k: int| first_bandwidth(line, k);
    assert(names_bandwidth(line, p));
    assert(first_bandwidth(line, k));
    if k < p {
        assert(!names_bandwidth(line, k));
    } else if p < k {
        assert(!names_bandwidth(line, p));
    }
}

fn quoted<'a>(s: &'a [char], tag: &str) -> (r: Option<&'a [char]>)
    ensures
        r is Some <==> quoted_behind(s@, tag@) is Some,
        r matches Some(q) ==> quoted_behind(s@, tag@) == Some(q@),
{
    let t: Vec<char> = text::chars_of(tag);
    match text::find(s, t.as_slice()) {
        Some(p) => {
            let n: usize = s.len();
            let value: &[char] = slice_subrange(s, p + t.len(), n);
            assert(value@ == s@.skip(p + tag@.len()));
            match text::find_char(value, '"') {
                Some(e) => Some(slice_subrange(value, 0, e)),
                None => None,
            }
        },
        None => None,
    }
}

fn line_audio_uri(line: &[char]) -> (r: Option<&[char]>)
    ensures
        r is Some <==> audio_uri(line@) is Some,
        r matches Some(q) ==> audio_uri(line@) == Some(q@),
{
    if text::starts_with(line, "#EXT-X-MEDIA:") && text::contains_str(line, "TYPE=AUDIO") {
        quoted(line, "URI=\"")
    } else {
        None
    }
}

proof fn lemma_best_variant(lines: Seq<Seq<char>>, i: int)
    requires
        is_best_variant(lines, i),
    ensures
        best_variant(lines) == Some(i),
{
    let k = choose|k: int| is_best_variant(lines, k);
    assert(is_best_variant(lines, k));
    assert(is_variant(lines, i) && is_variant(lines, k));
}

/// The renditions that the playlist at `url` leads to: for a master playlist the variant with the
/// highest bandwidth and the audio rendition that it names last, for a media playlist that playlist
/// itself.
pub fn select_renditions(url: &str, playlist: &str) -> (r: Result<Renditions, PlaylistError>)
    ensures
        r is Ok <==> text::has(playlist@, "#EXTM3U"@),
        r matches Ok(found) ==> {
            &&& found.video_url@ == video_rendition(url@, playlist@)
            &&& opt_view(found.audio_url) == audio_rendition(url@, playlist@)
        },
{
    let cs: Vec<char> = text::chars_of(playlist);
    if !text::contains_str(cs.as_slice(), "#EXTM3U") {
        return Err(PlaylistError::NotM3u8);
    }
    let mut video_url: String = text::copy_string(url);
    let mut audio_url: Option<String> = None;
    if text::contains_str(cs.as_slice(), "#EXT-X-STREAM-INF") {
        let base: Vec<char> = text::chars_of(url);
        let lines: Vec<Vec<char>> = text::lines(cs.as_slice());
        let ghost ls = text::line_seq(playlist@);
        let mut best: Option<usize> = None;
        let mut max_bw: u64 = 0;
        let mut i: usize = 0;
        while i < lines.len()
            invariant
                i <= lines@.len(),
                text::texts(lines@) == ls,
                base@ == url@,
                best is None ==> max_bw == 0 && forall|j: int| #[trigger]
                    is_variant(ls, j) ==> j >= i,
                best matches Some(b) ==> {
                    &&& b < i
                    &&& is_variant(ls, b as int)
                    &&& max_bw == bandwidth(ls[b as int])
                    &&& forall|j: int| #[trigger]
                        is_variant(ls, j) && j < i ==> bandwidth(ls[j]) <= max_bw && (j > b
                            ==> bandwidth(ls[j]) < max_bw)
                },
                audio_url is Some <==> last_audio_uri(ls, i as int) is Some,
                audio_url matches Some(a) ==> a@ == resolved(
                    url@,
                    last_audio_uri(ls, i as int).unwrap(),
                ),
            decreases lines@.len() - i,
        {
            let line: &[char] = lines[i].as_slice();
            assert(ls[i as int] == line@);
            if text::starts_with(line, "#EXT-X-STREAM-INF") {
                let bw: u64 = line_bandwidth(line);
                if i + 1 < lines.len() && bw >= max_bw {
                    max_bw = bw;
                    best = Some(i);
                }
            }
            if let Some(uri) = line_audio_uri(line) {
                let resolved_uri: Vec<char> = resolve(base.as_slice(), uri);
                audio_url = Some(text::string_of(resolved_uri.as_slice()));
            }
            i = i + 1;
        }
        if let Some(b) = best {
            proof {
                assert(is_best_variant(ls, b as int));
                lemma_best_variant(ls, b as int);
            }
            let path: &[char] = text::trim(lines[b + 1].as_slice());
            assert(ls[b + 1] == lines@[b + 1]@);
            let variant: Vec<char> = resolve(base.as_slice(), path);
            if variant.len() > 0 {
                video_url = text::string_of(variant.as_slice());
            }
        }
        assert(i == ls.len());
    }
    Ok(Renditions { video_url, audio_url })
}

/// An attribute with a longer name, such as the average bandwidth, is not taken for the bandwidth,
/// wherever it stands: what counts is the number behind the bandwidth itself.
pub proof fn law_longer_names_do_not_count(line: Seq<char>, p: int, own: int)
    requires
        text::occurs_at(line, "AVERAGE-BANDWIDTH="@, p),
        first_bandwidth(line, own),
    ensures
        text::occurs_at(line, "BANDWIDTH="@, p + 8),
        !names_bandwidth(line, p + 8),
        own != p + 8,
        bandwidth(line) == value_number(line.skip(own + 10)),
{
    lemma_first_bandwidth(line, own);
    reveal_strlit("AVERAGE-BANDWIDTH=");
    reveal_strlit("BANDWIDTH=");
    let whole = line.subrange(p, p + 18);
    assert(whole[7] == line[p + 7]);
    assert forall|k: int| 0 <= k < 10 implies line[p + 8 + k] == "BANDWIDTH="@[k] by {
        assert(whole[8 + k] == line[p + 8 + k]);
    }
    assert(line.subrange(p + 8, p + 18) =~= "BANDWIDTH="@);
}

/// Where a playlist has variants, one of them is chosen, and no variant has a higher bandwidth.
pub proof fn law_highest_bandwidth_is_chosen(lines: Seq<Seq<char>>, j: int)
    requires
        is_variant(lines, j),
    ensures
        best_variant(lines) matches Some(i) && is_variant(lines, i) && bandwidth(lines[j])
            <= bandwidth(lines[i]),
{
    lemma_best_exists(lines, lines.len() as int, j);
}

spec fn best_before(lines: Seq<Seq<char>>, n: int, i: int) -> bool {
    &&& is_variant(lines, i)
    &&& i < n
    &&& forall|j: int| #[trigger]
        is_variant(lines, j) && j < n ==> bandwidth(lines[j]) <= bandwidth(lines[i]) && (j > i
            ==> bandwidth(lines[j]) < bandwidth(lines[i]))
}

proof fn lemma_best_exists(lines: Seq<Seq<char>>, n: int, v: int)
    requires
        is_variant(lines, v),
        v < n <= lines.len(),
    ensures
        exists|i: int| best_before(lines, n, i),
        n == lines.len() ==> exists|i: int| is_best_variant(lines, i),
    decreases n,
{
    if forall|j: int| #[trigger] is_variant(lines, j) && j < n ==> j >= n - 1 {
        assert(best_before(lines, n, v));
    } else {
        let u = choose|j: int| #[trigger] is_variant(lines, j) && j < n && j < n - 1;
        let m = n - 1;
        lemma_best_exists(lines, m, u);
        let i = choose|i: int| best_before(lines, m, i);
        if is_variant(lines, n - 1) && bandwidth(lines[n - 1]) >= bandwidth(lines[i]) {
            assert(best_before(lines, n, n - 1));
        } else {
            assert(best_before(lines, n, i));
        }
    }
    let b = choose|i: int| best_before(lines, n, i);
    if n == lines.len() {
        assert(is_best_variant(lines, b));
    }
}

// ---------------------------------------------------------------------------------------------
// Media playlists
// ---------------------------------------------------------------------------------------------

/// A playlist that is still growing: it lacks the end mark.
pub open spec fn live(playlist: Seq<char>) -> bool {
    !text::has(playlist, "#EXT-X-ENDLIST"@)
}

/// A playlist whose segments are fragments of MP4, with an initialisation segment, rather than
/// MPEG-TS.
pub open spec fn fragmented(playlist: Seq<char>) -> bool {
    text::has(playlist, "#EXT-X-MAP:"@)
}

/// The address of the initialisation segment as the playlist writes it.
pub open spec fn init_uri(playlist: Seq<char>) -> Option<Seq<char>> {
    quoted_behind(playlist, "#EXT-X-MAP:URI=\""@)
}

/// A line that describes a segment.
pub open spec fn is_extinf(line: Seq<char>) -> bool {
    "#EXTINF"@.is_prefix_of(line)
}

/// A line that describes a segment has a character behind the tag, and it takes one byte.
pub open spec fn has_separator(line: Seq<char>) -> bool {
    line.len() >= 8 && (line[7] as u32) < 0x80
}

/// Every line that describes a segment has the character that separates its duration from the tag.
pub open spec fn durations_readable(playlist: Seq<char>) -> bool {
    let lines = text::line_seq(playlist);
    forall|i: int| 0 <= i < lines.len() && is_extinf(#[trigger] lines[i]) ==> has_separator(lines[i])
}

/// The duration that a segment's line gives, in seconds, as it is written there.
pub open spec fn duration_text(line: Seq<char>) -> Seq<char> {
    text::before_char(line.skip(8), ',')
}

/// The durations that the first `n` lines give.
pub open spec fn durations(lines: Seq<Seq<char>>, n: int) -> Seq<Seq<char>>
    decreases n,
{
    if n <= 0 {
        Seq::empty()
    } else if is_extinf(lines[n - 1]) {
        durations(lines, n - 1).push(duration_text(lines[n - 1]))
    } else {
        durations(lines, n - 1)
    }
}

/// The durations that those of the first `n` lines give that have a colon behind the tag.
pub open spec fn colon_durations(lines: Seq<Seq<char>>, n: int) -> Seq<Seq<char>>
    decreases n,
{
    if n <= 0 {
        Seq::empty()
    } else if "#EXTINF:"@.is_prefix_of(lines[n - 1]) {
        colon_durations(lines, n - 1).push(duration_text(lines[n - 1]))
    } else {
        colon_durations(lines, n - 1)
    }
}

/// Line `i` describes a segment and the next line is an address, not a tag.
pub open spec fn names_segment(lines: Seq<Seq<char>>, i: int) -> bool {
    &&& 0 <= i
    &&& i + 1 < lines.len()
    &&& is_extinf(lines[i])
    &&& !"#"@.is_prefix_of(text::trimmed(lines[i + 1]))
}

/// The addresses of the segments that the first `n` lines describe, in their order.
pub open spec fn segment_urls(base: Seq<char>, lines: Seq<Seq<char>>, n: int) -> Seq<Seq<char>>
    decreases n,
{
    if n <= 0 {
        Seq::empty()
    } else if names_segment(lines, n - 1) {
        segment_urls(base, lines, n - 1).push(resolved(base, text::trimmed(lines[n])))
    } else {
        segment_urls(base, lines, n - 1)
    }
}

/// How many lines can be read: all before the first that describes a segment and lacks the character
/// behind the tag.
pub open spec fn readable_lines(lines: Seq<Seq<char>>, n: int) -> int
    decreases n,
{
    if n <= 0 {
        0
    } else {
        let m = n - 1;
        let before = readable_lines(lines, m);
        if before == m && !(is_extinf(lines[m]) && !has_separator(lines[m])) {
            n
        } else {
            before
        }
    }
}

/// What the first `n` lines say of segments, in their order: for each line that describes one and
/// has a line behind it, the duration as it is written and that next line.
pub open spec fn entry_seq(lines: Seq<Seq<char>>, n: int) -> Seq<(Seq<char>, Seq<char>)>
    decreases n,
{
    if n <= 0 {
        Seq::empty()
    } else if is_extinf(lines[n - 1]) && n < lines.len() {
        entry_seq(lines, n - 1).push((duration_text(lines[n - 1]), text::trimmed(lines[n])))
    } else {
        entry_seq(lines, n - 1)
    }
}

/// The views of a row of strings.
pub open spec fn string_views(v: Seq<String>) -> Seq<Seq<char>> {
    v.map_values(|s: String| s@)
}

/// A segment of a media playlist.
pub struct HlsSegment {
    /// Its address.
    pub url: String,
    /// Its place among the segments of the playlist.
    pub index: usize,
}

/// The segments with the given addresses, each with its place.
pub open spec fn are_segments(segments: Seq<HlsSegment>, urls: Seq<Seq<char>>) -> bool {
    &&& segments.len() == urls.len()
    &&& forall|i: int|
        0 <= i < segments.len() ==> (#[trigger] segments[i]).url@ == urls[i] && segments[i].index
            == i
}

/// What a media playlist says of its rendition.
pub struct MediaPlaylist {
    /// The playlist is still growing.
    pub is_live: bool,
    /// The segments are MPEG-TS.
    pub is_ts: bool,
    /// The address of the initialisation segment.
    pub init_url: Option<String>,
    /// The segments, in their order.
    pub segments: Vec<HlsSegment>,
}

/// One segment as a media playlist describes it.
pub struct MediaEntry {
    /// The duration in seconds, as it is written.
    pub duration: String,
    /// The line behind the description.
    pub segment: String,
}

/// The views of a row of entries.
pub open spec fn entry_views(v: Seq<MediaEntry>) -> Seq<(Seq<char>, Seq<char>)> {
    v.map_values(|e: MediaEntry| (e.duration@, e.segment@))
}

/// What a playlist says of an initialisation segment.
pub enum InitSegment {
    /// It names none.
    Absent,
    /// It names one, but the address has no end.
    Unclosed,
    /// It names one, at this address.
    At(String),
}

/// Whether the playlist is still growing.
pub fn is_live(playlist: &str) -> (r: bool)
    ensures
        r == live(playlist@),
{
    let cs: Vec<char> = text::chars_of(playlist);
    !text::contains_str(cs.as_slice(), "#EXT-X-ENDLIST")
}

/// Whether the playlist's segments are fragments of MP4.
pub fn is_fragmented(playlist: &str) -> (r: bool)
    ensures
        r == fragmented(playlist@),
{
    let cs: Vec<char> = text::chars_of(playlist);
    text::contains_str(cs.as_slice(), "#EXT-X-MAP:")
}

/// What the playlist at `base` says of an initialisation segment.
pub fn init_segment(base: &str, playlist: &str) -> (r: InitSegment)
    ensures
        r is Absent <==> !text::has(playlist@, "#EXT-X-MAP:URI=\""@),
        r is Unclosed <==> text::has(playlist@, "#EXT-X-MAP:URI=\""@) && init_uri(
            playlist@,
        ) is None,
        r matches InitSegment::At(url) ==> init_uri(playlist@) is Some && url@ == resolved(
            base@,
            init_uri(playlist@).unwrap(),
        ),
{
    let cs: Vec<char> = text::chars_of(playlist);
    if !text::contains_str(cs.as_slice(), "#EXT-X-MAP:URI=\"") {
        return InitSegment::Absent;
    }
    match quoted(cs.as_slice(), "#EXT-X-MAP:URI=\"") {
        Some(uri) => {
            let b: Vec<char> = text::chars_of(base);
            let url: Vec<char> = resolve(b.as_slice(), uri);
            InitSegment::At(text::string_of(url.as_slice()))
        },
        None => InitSegment::Unclosed,
    }
}

/// What the media playlist at `base` says of its rendition.
pub fn read_media_playlist(base: &str, playlist: &str) -> (r: MediaPlaylist)
    ensures
        r.is_live == live(playlist@),
        r.is_ts == !fragmented(playlist@),
        opt_view(r.init_url) == (match init_uri(playlist@) {
            Some(uri) => Some(resolved(base@, uri)),
            None => None,
        }),
        are_segments(
            r.segments@,
            segment_urls(
                base@,
                text::line_seq(playlist@),
                text::line_seq(playlist@).len() as int,
            ),
        ),
{
    let b: Vec<char> = text::chars_of(base);
    let cs: Vec<char> = text::chars_of(playlist);
    let init_url: Option<String> = match quoted(cs.as_slice(), "#EXT-X-MAP:URI=\"") {
        Some(uri) => {
            let url: Vec<char> = resolve(b.as_slice(), uri);
            Some(text::string_of(url.as_slice()))
        },
        None => None,
    };
    let lines: Vec<Vec<char>> = text::lines(cs.as_slice());
    let ghost ls = text::line_seq(playlist@);
    let mut segments: Vec<HlsSegment> = Vec::new();
    let mut i: usize = 0;
    while i < lines.len()
        invariant
            i <= lines@.len(),
            text::texts(lines@) == ls,
            b@ == base@,
            are_segments(segments@, segment_urls(base@, ls, i as int)),
        decreases lines@.len() - i,
    {
        assert(ls[i as int] == lines@[i as int]@);
        if text::starts_with(lines[i].as_slice(), "#EXTINF") && i + 1 < lines.len() {
            let path: &[char] = text::trim(lines[i + 1].as_slice());
            assert(ls[i + 1] == lines@[i + 1]@);
            if !text::starts_with(path, "#") {
                let url: Vec<char> = resolve(b.as_slice(), path);
                let index: usize = segments.len();
                segments.push(HlsSegment { url: text::string_of(url.as_slice()), index });
            }
        }
        i = i + 1;
    }
    MediaPlaylist {
        is_live: !text::contains_str(cs.as_slice(), "#EXT-X-ENDLIST"),
        is_ts: !text::contains_str(cs.as_slice(), "#EXT-X-MAP:"),
        init_url,
        segments,
    }
}

/// Whether the durations of the playlist can be read: whether every line that describes a segment
/// has a character of one byte behind its tag.
pub fn can_read_durations(playlist: &str) -> (r: bool)
    ensures
        r == durations_readable(playlist@),
{
    let cs: Vec<char> = text::chars_of(playlist);
    let lines: Vec<Vec<char>> = text::lines(cs.as_slice());
    let ghost ls = text::line_seq(playlist@);
    let mut i: usize = 0;
    while i < lines.len()
        invariant
            i <= lines@.len(),
            text::texts(lines@) == ls,
            ls == text::line_seq(playlist@),
            forall|j: int| 0 <= j < i && is_extinf(#[trigger] ls[j]) ==> has_separator(ls[j]),
        decreases lines@.len() - i,
    {
        let line: &[char] = lines[i].as_slice();
        assert(ls[i as int] == line@);
        if text::starts_with(line, "#EXTINF") && (line.len() < 8 || (line[7] as u32) >= 0x80) {
            return false;
        }
        i = i + 1;
    }
    true
}

fn line_duration(line: &[char]) -> (r: String)
    requires
        line@.len() >= 8,
    ensures
        r@ == duration_text(line@),
{
    let n: usize = line.len();
    let value: &[char] = slice_subrange(line, 8, n);
    assert(value@ == line@.skip(8));
    text::string_of(text::until_char(value, ','))
}

/// The durations that the playlist gives, in seconds, as they are written there.
pub fn duration_texts(playlist: &str) -> (r: Vec<String>)
    requires
        durations_readable(playlist@),
    ensures
        string_views(r@) == durations(
            text::line_seq(playlist@),
            text::line_seq(playlist@).len() as int,
        ),
{
    let cs: Vec<char> = text::chars_of(playlist);
    let lines: Vec<Vec<char>> = text::lines(cs.as_slice());
    let ghost ls = text::line_seq(playlist@);
    let mut r: Vec<String> = Vec::new();
    let mut i: usize = 0;
    assert(string_views(r@) == durations(ls, 0));
    while i < lines.len()
        invariant
            i <= lines@.len(),
            text::texts(lines@) == ls,
            forall|j: int|
                0 <= j < ls.len() && is_extinf(#[trigger] ls[j]) ==> has_separator(ls[j]),
            string_views(r@) == durations(ls, i as int),
        decreases lines@.len() - i,
    {
        let line: &[char] = lines[i].as_slice();
        assert(ls[i as int] == line@);
        if text::starts_with(line, "#EXTINF") {
            let ghost before = r@;
            r.push(line_duration(line));
            assert(string_views(r@) == string_views(before).push(r@.last()@));
        }
        i = i + 1;
    }
    r
}

/// The durations that the lines with a colon behind the tag give, in seconds, as they are written
/// there: what a recorded stream's length is the sum of.
pub fn recorded_duration_texts(playlist: &str) -> (r: Vec<String>)
    ensures
        string_views(r@) == colon_durations(
            text::line_seq(playlist@),
            text::line_seq(playlist@).len() as int,
        ),
{
    let cs: Vec<char> = text::chars_of(playlist);
    let lines: Vec<Vec<char>> = text::lines(cs.as_slice());
    let ghost ls = text::line_seq(playlist@);
    let mut r: Vec<String> = Vec::new();
    let mut i: usize = 0;
    assert(string_views(r@) == colon_durations(ls, 0));
    while i < lines.len()
        invariant
            i <= lines@.len(),
            text::texts(lines@) == ls,
            string_views(r@) == colon_durations(ls, i as int),
        decreases lines@.len() - i,
    {
        let line: &[char] = lines[i].as_slice();
        assert(ls[i as int] == line@);
        if text::starts_with(line, "#EXTINF:") {
            proof {
                reveal_strlit("#EXTINF:");
            }
            let ghost before = r@;
            r.push(line_duration(line));
            assert(string_views(r@) == string_views(before).push(r@.last()@));
        }
        i = i + 1;
    }
    r
}

/// What a playlist says of its segments.
pub struct MediaEntries {
    /// What it says of each, in their order, up to the first that cannot be read.
    pub entries: Vec<MediaEntry>,
    /// All could be read.
    pub complete: bool,
}

/// What the playlist says of each segment, in their order, up to the first line that cannot be read.
pub fn media_entries(playlist: &str) -> (r: MediaEntries)
    ensures
        ({
            let lines = text::line_seq(playlist@);
            entry_views(r.entries@) == entry_seq(
                lines,
                readable_lines(lines, lines.len() as int),
            )
        }),
        r.complete == durations_readable(playlist@),
{
    let cs: Vec<char> = text::chars_of(playlist);
    let lines: Vec<Vec<char>> = text::lines(cs.as_slice());
    let ghost ls = text::line_seq(playlist@);
    let mut entries: Vec<MediaEntry> = Vec::new();
    let mut i: usize = 0;
    assert(entry_views(entries@) == entry_seq(ls, 0));
    while i < lines.len()
        invariant
            i <= lines@.len(),
            text::texts(lines@) == ls,
            ls == text::line_seq(playlist@),
            forall|j: int| 0 <= j < i && is_extinf(#[trigger] ls[j]) ==> has_separator(ls[j]),
            readable_lines(ls, i as int) == i,
            entry_views(entries@) == entry_seq(ls, i as int),
        decreases lines@.len() - i,
    {
        let line: &[char] = lines[i].as_slice();
        assert(ls[i as int] == line@);
        if text::starts_with(line, "#EXTINF") {
            if line.len() < 8 || (line[7] as u32) >= 0x80 {
                proof {
                    lemma_readable_lines(ls, i as int, ls.len() as int);
                }
                return MediaEntries { entries, complete: false };
            }
            if i + 1 < lines.len() {
                let duration: String = line_duration(line);
                let path: &[char] = text::trim(lines[i + 1].as_slice());
                assert(ls[i + 1] == lines@[i + 1]@);
                let ghost before = entries@;
                entries.push(MediaEntry { duration, segment: text::string_of(path) });
                assert(entry_views(entries@) == entry_views(before).push(
                    (entries@.last().duration@, entries@.last().segment@),
                ));
            }
        }
        i = i + 1;
    }
    MediaEntries { entries, complete: true }
}

/// Behind a line that cannot be read, none is.
proof fn lemma_readable_lines(lines: Seq<Seq<char>>, bad: int, n: int)
    requires
        0 <= bad < n <= lines.len(),
        readable_lines(lines, bad) == bad,
        is_extinf(lines[bad]) && !has_separator(lines[bad]),
    ensures
        readable_lines(lines, n) == bad,
    decreases n,
{
    if n > bad + 1 {
        lemma_readable_lines(lines, bad, n - 1);
    }
}

/// Where all can be read, the entries are those of the whole playlist.
pub proof fn law_readable_playlist_is_read_whole(playlist: Seq<char>)
    requires
        durations_readable(playlist),
    ensures
        readable_lines(text::line_seq(playlist), text::line_seq(playlist).len() as int)
            == text::line_seq(playlist).len(),
{
    lemma_all_readable(text::line_seq(playlist), text::line_seq(playlist).len() as int);
}

proof fn lemma_all_readable(lines: Seq<Seq<char>>, n: int)
    requires
        0 <= n <= lines.len(),
        forall|i: int| 0 <= i < lines.len() && is_extinf(#[trigger] lines[i]) ==> has_separator(lines[i]),
    ensures
        readable_lines(lines, n) == n,
    decreases n,
{
    if n > 0 {
        lemma_all_readable(lines, n - 1);
    }
}

/// Whether the media playlist of a rendition is still to be fetched: not where the playlist that is
/// there is itself the media playlist.
pub fn needs_media_playlist(url: &str, renditions: &Renditions) -> (r: bool)
    ensures
        r == (renditions.video_url@ != url@),
{
    let video: Vec<char> = text::chars_of(renditions.video_url.as_str());
    !text::same(video.as_slice(), url)
}

/// How a source is to be had.
#[derive(Clone, Copy, Debug, PartialEq, Eq, Structural)]
pub enum DownloadKind {
    /// It is no address: nothing is downloaded.
    Local,
    /// One file, downloaded as it is.
    Direct,
    /// A playlist of segments.
    Hls,
}

/// How the source at `url` is to be had.
pub open spec fn kind_of_source(url: Seq<char>) -> DownloadKind {
    if text::has(url, ".m3u8"@) {
        DownloadKind::Hls
    } else if "http"@.is_prefix_of(url) || text::has(url, "://"@) {
        DownloadKind::Direct
    } else {
        DownloadKind::Local
    }
}

/// How the source at `url` is to be had.
pub fn download_kind(url: &str) -> (r: DownloadKind)
    ensures
        r == kind_of_source(url@),
{
    let cs: Vec<char> = text::chars_of(url);
    if text::contains_str(cs.as_slice(), ".m3u8") {
        DownloadKind::Hls
    } else if text::starts_with(cs.as_slice(), "http") || text::contains_str(cs.as_slice(), "://") {
        DownloadKind::Direct
    } else {
        DownloadKind::Local
    }
}

// ---------------------------------------------------------------------------------------------
// What reading owes a playlist
// ---------------------------------------------------------------------------------------------

/// An address that is not absolute takes the place of what stands behind the last slash of the base,
/// and is kept whole. A base without a slash gives it nothing, and an absolute address needs nothing.
pub proof fn law_relative_address_is_kept_whole(
    dir: Seq<char>,
    name: Seq<char>,
    relative: Seq<char>,
)
    requires
        !name.contains('/'),
    ensures
        !"http"@.is_prefix_of(relative) ==> resolved(dir + seq!['/'] + name, relative) == dir + seq![
            '/',
        ] + relative,
        resolved(name, relative) == relative,
        "http"@.is_prefix_of(relative) ==> resolved(dir + seq!['/'] + name, relative) == relative,
{
    reveal_strlit("/");
    assert("/"@ =~= seq!['/']);
    text::law_character_is_found(dir, '/', name);
    text::law_character_is_found(name, '/', name);
    assert((dir + seq!['/'] + name).take(dir.len() as int) =~= dir);
}

/// The address that comes out ends with the one that was given, to its last character, and two
/// addresses that are not absolute come out alike only if they are the same.
pub proof fn law_addresses_stay_distinct(base: Seq<char>, relative: Seq<char>, other: Seq<char>)
    ensures
        relative.is_suffix_of(resolved(base, relative)),
        !"http"@.is_prefix_of(relative) && !"http"@.is_prefix_of(other) && resolved(base, relative)
            == resolved(base, other) ==> relative == other,
        !"http"@.is_prefix_of(relative) && !"http"@.is_prefix_of(other) ==> resolved(
            base,
            relative,
        ).len() - relative.len() == resolved(base, other).len() - other.len(),
{
    match text::last_index_of_char(base, '/') {
        Some(i) => {
            lemma_last_slash(base, i);
            let head = base.take(i) + "/"@;
            let a = head + relative;
            let b = head + other;
            assert(a.skip(head.len() as int) =~= relative);
            assert(b.skip(head.len() as int) =~= other);
            assert(a.subrange(a.len() - relative.len(), a.len() as int) =~= relative);
        },
        None => {},
    }
    assert(relative.subrange(relative.len() - relative.len(), relative.len() as int) =~= relative);
}

/// A playlist is recorded exactly where the end mark stands in it, whatever stands before the mark
/// and behind it, and however its lines end.
pub proof fn law_end_mark_says_recorded(a: Seq<char>, b: Seq<char>, playlist: Seq<char>, k: int)
    ensures
        !live(a + "#EXT-X-ENDLIST"@ + b),
        live(playlist) && 0 <= k && k + 14 <= playlist.len() ==> playlist.subrange(k, k + 14)
            != "#EXT-X-ENDLIST"@,
        !live(playlist) ==> ({
            let i = text::index_of(playlist, "#EXT-X-ENDLIST"@).unwrap();
            0 <= i && i + 14 <= playlist.len() && playlist.subrange(i, i + 14)
                == "#EXT-X-ENDLIST"@
        }),
        live(Seq::empty()),
{
    reveal_strlit("#EXT-X-ENDLIST");
    text::law_pattern_is_found_anywhere(a, "#EXT-X-ENDLIST"@, b);
    text::law_found_pattern_splits_the_text(playlist, "#EXT-X-ENDLIST"@, k);
    text::law_pattern_is_found_first(playlist, "#EXT-X-ENDLIST"@);
    if !live(Seq::empty()) {
        let i = choose|i: int| text::occurs_at(Seq::empty(), "#EXT-X-ENDLIST"@, i);
        assert(text::occurs_at(Seq::empty(), "#EXT-X-ENDLIST"@, i));
    }
}

/// Carriage returns before the line feeds change nothing of whether a playlist is recorded: the end
/// mark counts with one behind it, and without.
pub proof fn law_end_mark_needs_no_line_end(a: Seq<char>, b: Seq<char>)
    ensures
        live(a + "#EXT-X-ENDLIST"@ + seq!['\r', '\n'] + b) == live(a + "#EXT-X-ENDLIST"@ + seq!['\n']
            + b),
        live(a + "#EXT-X-ENDLIST"@ + b) == live(a + "#EXT-X-ENDLIST"@),
{
    law_end_mark_says_recorded(a, seq!['\r', '\n'] + b, a, 0);
    law_end_mark_says_recorded(a, seq!['\n'] + b, a, 0);
    law_end_mark_says_recorded(a, b, a, 0);
    law_end_mark_says_recorded(a, Seq::empty(), a, 0);
    assert(a + "#EXT-X-ENDLIST"@ + seq!['\r', '\n'] + b =~= a + "#EXT-X-ENDLIST"@ + (seq!['\r', '\n']
        + b));
    assert(a + "#EXT-X-ENDLIST"@ + seq!['\n'] + b =~= a + "#EXT-X-ENDLIST"@ + (seq!['\n'] + b));
    assert(a + "#EXT-X-ENDLIST"@ + Seq::empty() =~= a + "#EXT-X-ENDLIST"@);
}

/// A playlist is one of fragments exactly where the mark of an initialisation segment stands in it,
/// and one of renditions exactly where the mark of a variant does.
pub proof fn law_marks_count_anywhere(a: Seq<char>, b: Seq<char>, playlist: Seq<char>, k: int)
    ensures
        fragmented(a + "#EXT-X-MAP:"@ + b),
        is_master(a + "#EXT-X-STREAM-INF"@ + b),
        !fragmented(playlist) && 0 <= k && k + 11 <= playlist.len() ==> playlist.subrange(k, k + 11)
            != "#EXT-X-MAP:"@,
        !is_master(playlist) && 0 <= k && k + 17 <= playlist.len() ==> playlist.subrange(k, k + 17)
            != "#EXT-X-STREAM-INF"@,
        fragmented(playlist) ==> exists|i: int|
            0 <= i && i + 11 <= playlist.len() && #[trigger] playlist.subrange(i, i + 11)
                == "#EXT-X-MAP:"@,
        is_master(playlist) ==> exists|i: int|
            0 <= i && i + 17 <= playlist.len() && #[trigger] playlist.subrange(i, i + 17)
                == "#EXT-X-STREAM-INF"@,
{
    reveal_strlit("#EXT-X-MAP:");
    reveal_strlit("#EXT-X-STREAM-INF");
    text::law_pattern_is_found_anywhere(a, "#EXT-X-MAP:"@, b);
    text::law_pattern_is_found_anywhere(a, "#EXT-X-STREAM-INF"@, b);
    text::law_found_pattern_splits_the_text(playlist, "#EXT-X-MAP:"@, k);
    text::law_found_pattern_splits_the_text(playlist, "#EXT-X-STREAM-INF"@, k);
    if fragmented(playlist) {
        let i = choose|i: int| text::occurs_at(playlist, "#EXT-X-MAP:"@, i);
        assert(playlist.subrange(i, i + 11) == "#EXT-X-MAP:"@);
    }
    if is_master(playlist) {
        let i = choose|i: int| text::occurs_at(playlist, "#EXT-X-STREAM-INF"@, i);
        assert(playlist.subrange(i, i + 17) == "#EXT-X-STREAM-INF"@);
    }
}

/// What stands between quotes behind a tag is read back whole, where the tag does not stand earlier.
/// Without a closing quote there is nothing to read.
pub proof fn law_quoted_value_is_read_back(
    a: Seq<char>,
    tag: Seq<char>,
    value: Seq<char>,
    b: Seq<char>,
)
    requires
        !value.contains('"'),
        text::index_of(a + tag + value + seq!['"'] + b, tag) == Some(a.len() as int),
        text::index_of(a + tag + value, tag) == Some(a.len() as int),
    ensures
        quoted_behind(a + tag + value + seq!['"'] + b, tag) == Some(value),
        quoted_behind(a + tag + value, tag) is None,
{
    let s = a + tag + value + seq!['"'] + b;
    let rest = value + seq!['"'] + b;
    assert(s.skip(a.len() + tag.len() as int) =~= rest);
    assert((a + tag + value).skip(a.len() + tag.len() as int) =~= value);
    text::law_character_is_found(value, '"', b);
    assert(rest.take(value.len() as int) =~= value);
}

/// The address of the initialisation segment is what stands in quotes behind its mark.
pub proof fn law_init_address_is_read_back(a: Seq<char>, uri: Seq<char>, b: Seq<char>)
    requires
        !uri.contains('"'),
        forall|k: int|
            0 <= k < a.len() ==> #[trigger] (a + "#EXT-X-MAP:URI=\""@ + uri + seq!['"']
                + b).subrange(k, k + 16) != "#EXT-X-MAP:URI=\""@,
    ensures
        init_uri(a + "#EXT-X-MAP:URI=\""@ + uri + seq!['"'] + b) == Some(uri),
{
    reveal_strlit("#EXT-X-MAP:URI=\"");
    let tag = "#EXT-X-MAP:URI=\""@;
    let s = a + tag + uri + seq!['"'] + b;
    text::law_pattern_is_found_anywhere(a, tag, uri + seq!['"'] + b);
    assert(s =~= a + tag + (uri + seq!['"'] + b));
    let i = text::index_of(s, tag).unwrap();
    assert(s.subrange(i, i + 16) == tag);
    let rest = uri + seq!['"'] + b;
    assert(s.skip(a.len() + tag.len() as int) =~= rest);
    text::law_character_is_found(uri, '"', b);
    assert(rest.take(uri.len() as int) =~= uri);
}

/// A line describes a separate audio rendition only if it begins as a medium and says that it is
/// audio. Then its address is what stands in quotes behind `URI=`.
pub proof fn law_audio_address_is_read_back(a: Seq<char>, uri: Seq<char>, b: Seq<char>)
    requires
        !uri.contains('"'),
        forall|k: int|
            0 <= k < a.len() ==> #[trigger] (a + "URI=\""@ + uri + seq!['"'] + b).subrange(k, k + 5)
                != "URI=\""@,
    ensures
        ({
            let line = a + "URI=\""@ + uri + seq!['"'] + b;
            &&& "#EXT-X-MEDIA:"@.is_prefix_of(line) && text::has(line, "TYPE=AUDIO"@) ==> audio_uri(
                line,
            ) == Some(uri)
            &&& !"#EXT-X-MEDIA:"@.is_prefix_of(line) ==> audio_uri(line) is None
            &&& !text::has(line, "TYPE=AUDIO"@) ==> audio_uri(line) is None
        }),
{
    reveal_strlit("URI=\"");
    let tag = "URI=\""@;
    let s = a + tag + uri + seq!['"'] + b;
    text::law_pattern_is_found_anywhere(a, tag, uri + seq!['"'] + b);
    assert(s =~= a + tag + (uri + seq!['"'] + b));
    let i = text::index_of(s, tag).unwrap();
    assert(s.subrange(i, i + 5) == tag);
    let rest = uri + seq!['"'] + b;
    assert(s.skip(a.len() + tag.len() as int) =~= rest);
    text::law_character_is_found(uri, '"', b);
    assert(rest.take(uri.len() as int) =~= uri);
}

/// Of several audio renditions the last one counts, and lines that describe none do not matter.
pub proof fn law_last_audio_rendition_counts(lines: Seq<Seq<char>>, k: int, n: int)
    requires
        0 <= k < n,
        forall|j: int| k < j < n ==> audio_uri(#[trigger] lines[j]) is None,
    ensures
        audio_uri(lines[k]) is Some ==> last_audio_uri(lines, n) == audio_uri(lines[k]),
        audio_uri(lines[k]) is None ==> last_audio_uri(lines, n) == last_audio_uri(lines, k),
        last_audio_uri(lines, 0) is None,
    decreases n,
{
    if n > k + 1 {
        law_last_audio_rendition_counts(lines, k, n - 1);
    }
}

/// The bandwidth of a variant is the number behind its `BANDWIDTH=`, up to a comma, a space where
/// there is no comma, or the end of the line.
pub proof fn law_bandwidth_is_read_back(before: Seq<char>, n: nat, behind: Seq<char>)
    requires
        n <= u64::MAX,
        before.len() > 0 ==> !('A' <= before.last() <= 'Z' || '0' <= before.last() <= '9'
            || before.last() == '-'),
        behind.len() > 0 ==> behind[0] == ',' || (behind[0] == ' ' && !behind.contains(',')),
        forall|p: int|
            0 <= p < before.len() ==> #[trigger] (before + "BANDWIDTH="@ + text::decimal(n)
                + behind).subrange(p, p + 10) != "BANDWIDTH="@,
    ensures
        bandwidth(before + "BANDWIDTH="@ + text::decimal(n) + behind) == n,
{
    reveal_strlit("BANDWIDTH=");
    let tag = "BANDWIDTH="@;
    let digits = text::decimal(n);
    let line = before + tag + digits + behind;
    let p = before.len() as int;
    assert(first_bandwidth(line, p)) by {
        assert(line.subrange(p, p + 10) =~= tag);
        if p > 0 {
            assert(line[p - 1] == before.last());
        }
        assert(names_bandwidth(line, p));
        assert forall|j: int| 0 <= j < p implies !names_bandwidth(line, j) by {
            assert(line.subrange(j, j + 10) != tag);
        }
    }
    lemma_first_bandwidth(line, p);
    assert(line.skip(p + 10) =~= digits + behind);
    lemma_value_is_read(n, behind);
}

proof fn lemma_value_is_read(n: nat, behind: Seq<char>)
    requires
        n <= u64::MAX,
        behind.len() > 0 ==> behind[0] == ',' || (behind[0] == ' ' && !behind.contains(',')),
    ensures
        value_number(text::decimal(n) + behind) == n,
{
    let digits = text::decimal(n);
    let value = digits + behind;
    text::lemma_decimal_digits(n);
    text::law_decimal_reads_back(n, u64::MAX as nat);
    assert forall|i: int| 0 <= i < digits.len() implies digits[i] != ',' && digits[i] != ' ' by {
        assert(text::is_digit(digits[i]));
    }
    assert(!digits.contains(',') && !digits.contains(' '));
    if behind.len() == 0 {
        assert(value =~= digits);
        text::law_joined_texts_come_apart(digits, ' ', behind);
    } else {
        let rest = behind.skip(1);
        assert(value =~= digits + seq![behind[0]] + rest);
        text::law_joined_texts_come_apart(digits, behind[0], rest);
        if behind[0] == ',' {
            assert(value[digits.len() as int] == ',');
        } else {
            assert(!value.contains(',')) by {
                if value.contains(',') {
                    let i = choose|i: int| 0 <= i < value.len() && value[i] == ',';
                    assert(i >= digits.len());
                    assert(behind[i - digits.len()] == ',');
                }
            }
        }
    }
}

/// Where an attribute whose name only ends with `BANDWIDTH` stands alone, its number counts.
pub proof fn law_longer_name_counts_alone(before: Seq<char>, n: nat, behind: Seq<char>)
    requires
        n <= u64::MAX,
        before.len() > 0,
        'A' <= before.last() <= 'Z' || '0' <= before.last() <= '9' || before.last() == '-',
        behind.len() > 0 ==> behind[0] == ',' || (behind[0] == ' ' && !behind.contains(',')),
        forall|p: int|
            0 <= p && p != before.len() ==> #[trigger] (before + "BANDWIDTH="@ + text::decimal(n)
                + behind).subrange(p, p + 10) != "BANDWIDTH="@,
    ensures
        bandwidth(before + "BANDWIDTH="@ + text::decimal(n) + behind) == n,
{
    reveal_strlit("BANDWIDTH=");
    let tag = "BANDWIDTH="@;
    let digits = text::decimal(n);
    let line = before + tag + digits + behind;
    let p = before.len() as int;
    assert(line[p - 1] == before.last());
    assert forall|j: int| !names_bandwidth(line, j) by {
        if names_bandwidth(line, j) {
            assert(line.subrange(j, j + 10) == tag);
        }
    }
    assert(line =~= before + tag + (digits + behind));
    text::law_pattern_is_found_anywhere(before, tag, digits + behind);
    let i = text::index_of(line, tag).unwrap();
    assert(line.subrange(i, i + 10) == tag);
    assert(line.skip(p + 10) =~= digits + behind);
    lemma_value_is_read(n, behind);
}

/// A line without the attribute has the bandwidth 0, and so has one whose value does not begin with a
/// digit or a plus sign.
pub proof fn law_no_bandwidth_is_zero(line: Seq<char>, value: Seq<char>)
    ensures
        !text::has(line, "BANDWIDTH="@) ==> bandwidth(line) == 0,
        value.len() == 0 || (!('0' <= value[0] <= '9') && value[0] != '+') ==> value_number(value)
            == 0,
{
    text::law_pattern_is_found_first(line, "BANDWIDTH="@);
    if !text::has(line, "BANDWIDTH="@) {
        assert forall|p: int| !names_bandwidth(line, p) by {
            if names_bandwidth(line, p) {
                assert(text::occurs_at(line, "BANDWIDTH="@, p));
            }
        }
    }
    let comma = text::before_char(value, ',');
    let space = text::before_char(value, ' ');
    text::law_only_digits_are_a_number(comma, u64::MAX as nat, 0);
    text::law_only_digits_are_a_number(space, u64::MAX as nat, 0);
    text::law_cut_text_is_the_beginning(value, ',');
    text::law_cut_text_is_the_beginning(value, ' ');
}

/// The variant that is played has the highest bandwidth of all, of those with the same the last, and
/// one is played wherever a line describes a variant and another line follows it.
pub proof fn law_last_of_the_best_is_played(lines: Seq<Seq<char>>, j: int)
    requires
        0 <= j,
        j + 1 < lines.len(),
        "#EXT-X-STREAM-INF"@.is_prefix_of(lines[j]),
    ensures
        best_variant(lines) is Some,
        ({
            let i = best_variant(lines).unwrap();
            &&& 0 <= i < lines.len() - 1
            &&& "#EXT-X-STREAM-INF"@.is_prefix_of(lines[i])
            &&& bandwidth(lines[j]) <= bandwidth(lines[i])
            &&& i < j ==> bandwidth(lines[j]) < bandwidth(lines[i])
        }),
{
    assert(is_variant(lines, j));
    lemma_best_exists(lines, lines.len() as int, j);
    let i = choose|i: int| is_best_variant(lines, i);
    lemma_best_variant(lines, i);
}

/// Without a line that describes a variant, or without a line behind it, none is played.
pub proof fn law_no_variant_plays_the_playlist(url: Seq<char>, playlist: Seq<char>)
    ensures
        ({
            let lines = text::line_seq(playlist);
            &&& (forall|i: int|
                0 <= i < lines.len() - 1 ==> !"#EXT-X-STREAM-INF"@.is_prefix_of(#[trigger] lines[i]))
                ==> video_rendition(url, playlist) == url
            &&& !text::has(playlist, "#EXT-X-STREAM-INF"@) ==> video_rendition(url, playlist) == url
                && audio_rendition(url, playlist) is None
        }),
{
    let lines = text::line_seq(playlist);
    if (forall|i: int|
        0 <= i < lines.len() - 1 ==> !"#EXT-X-STREAM-INF"@.is_prefix_of(#[trigger] lines[i])) {
        assert forall|i: int| !is_variant(lines, i) by {
            if is_variant(lines, i) {
                assert(!"#EXT-X-STREAM-INF"@.is_prefix_of(lines[i]));
            }
        }
    }
}

/// The video that is played is at the address on the line behind the best variant, trimmed and
/// resolved against the playlist's own.
pub proof fn law_video_address_is_resolved(url: Seq<char>, playlist: Seq<char>, i: int)
    requires
        text::has(playlist, "#EXT-X-STREAM-INF"@),
        is_best_variant(text::line_seq(playlist), i),
        text::trimmed(text::line_seq(playlist)[i + 1]).len() > 0,
    ensures
        video_rendition(url, playlist) == resolved(url, text::trimmed(text::line_seq(playlist)[i + 1])),
{
    let lines = text::line_seq(playlist);
    lemma_best_variant(lines, i);
    law_addresses_stay_distinct(url, text::trimmed(lines[i + 1]), url);
}

/// The audio that is played is at the last address that names one, resolved against the playlist's
/// own, whether there is a variant to play or not.
pub proof fn law_audio_address_is_resolved(url: Seq<char>, playlist: Seq<char>, k: int)
    requires
        text::has(playlist, "#EXT-X-STREAM-INF"@),
        0 <= k < text::line_seq(playlist).len(),
        audio_uri(text::line_seq(playlist)[k]) is Some,
        forall|j: int|
            k < j < text::line_seq(playlist).len() ==> audio_uri(
                #[trigger] text::line_seq(playlist)[j],
            ) is None,
    ensures
        audio_rendition(url, playlist) == Some(
            resolved(url, audio_uri(text::line_seq(playlist)[k]).unwrap()),
        ),
{
    let lines = text::line_seq(playlist);
    law_last_audio_rendition_counts(lines, k, lines.len() as int);
}

/// The duration of a segment is what stands between the separator behind `#EXTINF` and the next
/// comma, or the end of the line.
pub proof fn law_duration_is_read_back(separator: char, duration: Seq<char>, rest: Seq<char>)
    requires
        !duration.contains(','),
    ensures
        duration_text("#EXTINF"@ + seq![separator] + duration + seq![','] + rest) == duration,
        duration_text("#EXTINF"@ + seq![separator] + duration) == duration,
{
    reveal_strlit("#EXTINF");
    let line = "#EXTINF"@ + seq![separator] + duration + seq![','] + rest;
    assert(line.skip(8) =~= duration + seq![','] + rest);
    assert(("#EXTINF"@ + seq![separator] + duration).skip(8) =~= duration);
    text::law_joined_texts_come_apart(duration, ',', rest);
}

proof fn lemma_more_lines(base: Seq<char>, lines: Seq<Seq<char>>, more: Seq<char>, n: int)
    requires
        n <= lines.len(),
    ensures
        durations(lines.push(more), n) == durations(lines, n),
        colon_durations(lines.push(more), n) == colon_durations(lines, n),
        n < lines.len() ==> segment_urls(base, lines.push(more), n) == segment_urls(base, lines, n),
        n < lines.len() ==> entry_seq(lines.push(more), n) == entry_seq(lines, n),
    decreases n,
{
    if n > 0 {
        let m = n - 1;
        lemma_more_lines(base, lines, more, m);
        assert(lines.push(more)[m] == lines[m]);
        if n < lines.len() {
            assert(lines.push(more)[n] == lines[n]);
        }
    }
}

/// Every line that begins with `#EXTINF` gives a duration, in the order of the lines, and no other
/// line does. Where the playlist was recorded the line begins with `#EXTINF:`.
pub proof fn law_every_description_gives_a_duration(lines: Seq<Seq<char>>, line: Seq<char>)
    ensures
        durations(Seq::empty(), 0) == Seq::<Seq<char>>::empty(),
        colon_durations(Seq::empty(), 0) == Seq::<Seq<char>>::empty(),
        durations(lines.push(line), lines.len() + 1int) == (if "#EXTINF"@.is_prefix_of(line) {
            durations(lines, lines.len() as int).push(duration_text(line))
        } else {
            durations(lines, lines.len() as int)
        }),
        colon_durations(lines.push(line), lines.len() + 1int) == (if "#EXTINF:"@.is_prefix_of(line) {
            colon_durations(lines, lines.len() as int).push(duration_text(line))
        } else {
            colon_durations(lines, lines.len() as int)
        }),
{
    lemma_more_lines(line, lines, line, lines.len() as int);
}

/// The line behind one that begins with `#EXTINF` is a segment, at its place behind the segments
/// before it, unless it is a comment. No other line is one: the segments are as many, and in the
/// order in which they stand.
pub proof fn law_line_behind_a_description_is_a_segment(
    base: Seq<char>,
    lines: Seq<Seq<char>>,
    line: Seq<char>,
)
    ensures
        segment_urls(base, Seq::empty(), 0) == Seq::<Seq<char>>::empty(),
        lines.len() == 0 ==> segment_urls(base, lines.push(line), 1) == Seq::<Seq<char>>::empty(),
        lines.len() > 0 ==> segment_urls(base, lines.push(line), lines.len() + 1int) == (
        if "#EXTINF"@.is_prefix_of(lines.last()) && !(text::trimmed(line).len() > 0 && text::trimmed(
            line,
        )[0] == '#') {
            segment_urls(base, lines, lines.len() as int).push(resolved(base, text::trimmed(line)))
        } else {
            segment_urls(base, lines, lines.len() as int)
        }),
{
    reveal_strlit("#");
    let all = lines.push(line);
    let n = lines.len() as int;
    assert(!names_segment(all, n));
    if n > 0 {
        let m = n - 1;
        lemma_more_lines(base, lines, line, m);
        assert(all[n] == line);
        assert(all[m] == lines.last());
        assert(!names_segment(lines, m));
        assert(segment_urls(base, lines, n) == segment_urls(base, lines, m));
        assert(segment_urls(base, all, n + 1) == segment_urls(base, all, n));
        let t = text::trimmed(line);
        assert("#"@.is_prefix_of(t) <==> t.len() > 0 && t[0] == '#') by {
            if t.len() > 0 && t[0] == '#' {
                assert(t.subrange(0, 1) =~= "#"@);
            }
            if "#"@.is_prefix_of(t) {
                assert("#"@[0] == t.subrange(0, 1)[0]);
            }
        }
    } else {
        assert(segment_urls(base, all, 1) == segment_urls(base, all, 0));
    }
}

/// What is said of a segment is its duration and the trimmed line behind it, for every line that
/// begins with `#EXTINF` and has a line behind it, in their order.
pub proof fn law_description_and_line_are_an_entry(lines: Seq<Seq<char>>, line: Seq<char>)
    ensures
        entry_seq(Seq::empty(), 0) == Seq::<(Seq<char>, Seq<char>)>::empty(),
        lines.len() == 0 ==> entry_seq(lines.push(line), 1) == Seq::<(Seq<char>, Seq<char>)>::empty(),
        lines.len() > 0 ==> entry_seq(lines.push(line), lines.len() + 1int) == (
        if "#EXTINF"@.is_prefix_of(lines.last()) {
            entry_seq(lines, lines.len() as int).push(
                (duration_text(lines.last()), text::trimmed(line)),
            )
        } else {
            entry_seq(lines, lines.len() as int)
        }),
{
    let all = lines.push(line);
    let n = lines.len() as int;
    if n > 0 {
        let m = n - 1;
        lemma_more_lines(line, lines, line, m);
        assert(all[n] == line);
        assert(all[m] == lines.last());
        assert(entry_seq(lines, n) == entry_seq(lines, m));
        assert(entry_seq(all, n + 1) == entry_seq(all, n));
    } else {
        assert(entry_seq(all, 1) == entry_seq(all, 0));
    }
}

/// Lines are read up to the first that begins with `#EXTINF` and has no character of ASCII behind
/// it, and no further: all before it are read.
pub proof fn law_reading_stops_at_the_first_unreadable_line(lines: Seq<Seq<char>>, n: int, k: int)
    requires
        0 <= n <= lines.len(),
    ensures
        0 <= readable_lines(lines, n) <= n,
        0 <= k < readable_lines(lines, n) && "#EXTINF"@.is_prefix_of(lines[k]) ==> lines[k].len()
            >= 8 && (lines[k][7] as u32) < 128,
        ({
            let stop = readable_lines(lines, n);
            stop < n ==> "#EXTINF"@.is_prefix_of(lines[stop]) && (lines[stop].len() < 8 || (
            lines[stop][7] as u32) >= 128)
        }),
    decreases n,
{
    if n > 0 {
        law_reading_stops_at_the_first_unreadable_line(lines, n - 1, k);
    }
}

/// An address with `.m3u8` anywhere in it is one of segments, any other that begins with `http` or
/// names a protocol is one file, and what is neither is no address.
pub proof fn law_kind_follows_from_the_address(a: Seq<char>, b: Seq<char>)
    ensures
        kind_of_source(a + ".m3u8"@ + b) == DownloadKind::Hls,
        kind_of_source(a + "://"@ + b) != DownloadKind::Local,
        kind_of_source("http"@ + a) != DownloadKind::Local,
        kind_of_source(a) == DownloadKind::Hls ==> exists|i: int|
            0 <= i && i + 5 <= a.len() && #[trigger] a.subrange(i, i + 5) == ".m3u8"@,
        kind_of_source(a) == DownloadKind::Direct ==> "http"@.is_prefix_of(a) || exists|i: int|
            0 <= i && i + 3 <= a.len() && #[trigger] a.subrange(i, i + 3) == "://"@,
{
    reveal_strlit(".m3u8");
    reveal_strlit("://");
    text::law_pattern_is_found_anywhere(a, ".m3u8"@, b);
    text::law_pattern_is_found_anywhere(a, "://"@, b);
    assert(("http"@ + a).subrange(0, "http"@.len() as int) =~= "http"@);
    if kind_of_source(a) == DownloadKind::Hls {
        let i = choose|i: int| text::occurs_at(a, ".m3u8"@, i);
        assert(a.subrange(i, i + 5) == ".m3u8"@);
    }
    if kind_of_source(a) == DownloadKind::Direct && !"http"@.is_prefix_of(a) {
        let i = choose|i: int| text::occurs_at(a, "://"@, i);
        assert(a.subrange(i, i + 3) == "://"@);
    }
}

/// Without its tag there is no quoted value, and neither an initialisation segment nor, on a line, an
/// audio rendition.
pub proof fn law_no_tag_names_nothing(s: Seq<char>, tag: Seq<char>)
    ensures
        !text::has(s, tag) ==> quoted_behind(s, tag) is None,
        !text::has(s, "#EXT-X-MAP:URI=\""@) ==> init_uri(s) is None,
        !text::has(s, "URI=\""@) ==> audio_uri(s) is None,
{
    text::law_pattern_is_found_first(s, tag);
    text::law_pattern_is_found_first(s, "#EXT-X-MAP:URI=\""@);
    text::law_pattern_is_found_first(s, "URI=\""@);
}

/// A variant without an address leaves the playlist itself to be played.
pub proof fn law_variant_without_an_address_is_passed_by(
    url: Seq<char>,
    playlist: Seq<char>,
    i: int,
)
    requires
        is_best_variant(text::line_seq(playlist), i),
        text::trimmed(text::line_seq(playlist)[i + 1]).len() == 0,
        !url.contains('/'),
    ensures
        video_rendition(url, playlist) == url,
{
    let lines = text::line_seq(playlist);
    lemma_best_variant(lines, i);
    reveal_strlit("http");
    text::law_character_is_found(url, '/', url);
}

/// Durations can be read exactly where every line that begins with `#EXTINF` has a character of ASCII
/// behind it, which is where the playlist is read to its end.
pub proof fn law_durations_are_readable_to_the_end(playlist: Seq<char>)
    ensures
        ({
            let lines = text::line_seq(playlist);
            &&& durations_readable(playlist) <==> readable_lines(lines, lines.len() as int)
                == lines.len()
            &&& durations_readable(playlist) <==> (forall|i: int|
                0 <= i < lines.len() && "#EXTINF"@.is_prefix_of(#[trigger] lines[i])
                    ==> lines[i].len() >= 8 && (lines[i][7] as u32) < 128)
        }),
{
    let lines = text::line_seq(playlist);
    let n = lines.len() as int;
    if durations_readable(playlist) {
        law_readable_playlist_is_read_whole(playlist);
    }
    if readable_lines(lines, n) == n {
        assert forall|i: int| 0 <= i < n && is_extinf(#[trigger] lines[i]) implies has_separator(
            lines[i],
        ) by {
            law_reading_stops_at_the_first_unreadable_line(lines, n, i);
        }
    }
}

/// The segments of a playlist are its addresses, each in its place, and what is shown of a row of
/// texts or of entries is every one as it is.
pub proof fn law_segments_are_numbered_in_order(
    segments: Seq<HlsSegment>,
    urls: Seq<Seq<char>>,
    strings: Seq<String>,
    entries: Seq<MediaEntry>,
    i: int,
)
    ensures
        are_segments(segments, urls) ==> segments.len() == urls.len(),
        are_segments(segments, urls) && 0 <= i < urls.len() ==> segments[i].index == i
            && segments[i].url@ == urls[i],
        string_views(strings).len() == strings.len(),
        0 <= i < strings.len() ==> string_views(strings)[i] == strings[i]@,
        entry_views(entries).len() == entries.len(),
        0 <= i < entries.len() ==> entry_views(entries)[i] == (
            entries[i].duration@,
            entries[i].segment@,
        ),
        0 <= i < strings.len() ==> opt_view(Some(strings[i])) == Some(strings[i]@),
        opt_view(None) is None,
{
}

} // verus!
