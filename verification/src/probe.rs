//! What `ffprobe`, `ffmpeg` and `ffplay` are asked, and what `ffprobe` answers.
use vstd::prelude::*;

use crate::player::MediaInfo;
use crate::playlist::string_views;
use crate::text;

verus! {

// ---------------------------------------------------------------------------------------------
// Single values
// ---------------------------------------------------------------------------------------------

/// A value that says nothing.
pub open spec fn is_missing(value: Seq<char>) -> bool {
    text::trimmed(value).len() == 0 || text::trimmed(value) == "N/A"@
}

/// The two numbers of a ratio, neither of which is 0.
pub open spec fn ratio_of(value: Seq<char>) -> Option<(nat, nat)> {
    match text::split_once(text::trimmed(value), '/') {
        Some((num, den)) => match (
            text::number(text::trimmed(num), u64::MAX as nat),
            text::number(text::trimmed(den), u64::MAX as nat),
        ) {
            (Some(n), Some(d)) => if n != 0 && d != 0 {
                Some((n, d))
            } else {
                None
            },
            _ => None,
        },
        None => None,
    }
}

/// A frame rate.
pub enum FrameRate {
    /// It is not known.
    Unknown,
    /// So many frames in so many seconds.
    Ratio(u64, u64),
    /// Written as a decimal number.
    Decimal(String),
}

/// The frame rate that a value names: a ratio of two numbers, or a decimal number, which is not read
/// here.
pub fn parse_ratio(value: &str) -> (r: FrameRate)
    ensures
        match r {
            FrameRate::Unknown => is_missing(value@) || (text::split_once(
                text::trimmed(value@),
                '/',
            ) is Some && ratio_of(value@) is None),
            FrameRate::Ratio(num, den) => !is_missing(value@) && ratio_of(value@) == Some(
                (num as nat, den as nat),
            ),
            FrameRate::Decimal(number) => !is_missing(value@) && text::split_once(
                text::trimmed(value@),
                '/',
            ) is None && number@ == text::trimmed(value@),
        },
{
    let cs: Vec<char> = text::chars_of(value);
    let trimmed: &[char] = text::trim(cs.as_slice());
    if trimmed.len() == 0 || text::same(trimmed, "N/A") {
        return FrameRate::Unknown;
    }
    match text::split_at_char(trimmed, '/') {
        Some((num, den)) => {
            let num: Option<u64> = text::parse_number(text::trim(num), u64::MAX);
            let den: Option<u64> = text::parse_number(text::trim(den), u64::MAX);
            match (num, den) {
                (Some(n), Some(d)) => if n == 0 || d == 0 {
                    FrameRate::Unknown
                } else {
                    FrameRate::Ratio(n, d)
                },
                _ => FrameRate::Unknown,
            }
        },
        None => FrameRate::Decimal(text::string_of(trimmed)),
    }
}

/// The number of seconds that a value names, as it is written, if it names one.
pub fn duration_text(value: &str) -> (r: Option<String>)
    ensures
        match r {
            Some(number) => !is_missing(value@) && number@ == text::trimmed(value@),
            None => is_missing(value@),
        },
{
    let cs: Vec<char> = text::chars_of(value);
    let trimmed: &[char] = text::trim(cs.as_slice());
    if trimmed.len() == 0 || text::same(trimmed, "N/A") {
        None
    } else {
        Some(text::string_of(trimmed))
    }
}

// ---------------------------------------------------------------------------------------------
// The answer
// ---------------------------------------------------------------------------------------------

/// One field of an answer.
pub enum ProbeField {
    Width(u32),
    Height(u32),
    /// The duration, as it is written.
    Duration(String),
    /// The frame rate, as it is written.
    Rate(String),
}

/// One field of an answer.
pub enum FieldView {
    Width(nat),
    Height(nat),
    Duration(Seq<char>),
    Rate(Seq<char>),
}

impl View for ProbeField {
    type V = FieldView;

    open spec fn view(&self) -> FieldView {
        match self {
            ProbeField::Width(n) => FieldView::Width(*n as nat),
            ProbeField::Height(n) => FieldView::Height(*n as nat),
            ProbeField::Duration(value) => FieldView::Duration(value@),
            ProbeField::Rate(value) => FieldView::Rate(value@),
        }
    }
}

/// The number of pixels that a value names, 0 where it names none.
pub open spec fn pixels_of(value: Seq<char>) -> nat {
    match text::number(text::trimmed(value), u32::MAX as nat) {
        Some(n) => n,
        None => 0,
    }
}

/// The field that stands in a line.
pub open spec fn field_of(line: Seq<char>) -> Option<FieldView> {
    match text::split_once(line, '=') {
        Some((key, value)) => {
            let key = text::trimmed(key);
            if key == "width"@ {
                Some(FieldView::Width(pixels_of(value)))
            } else if key == "height"@ {
                Some(FieldView::Height(pixels_of(value)))
            } else if key == "duration"@ {
                Some(FieldView::Duration(value))
            } else if key == "r_frame_rate"@ {
                Some(FieldView::Rate(value))
            } else {
                None
            }
        },
        None => None,
    }
}

/// The fields that stand in the first `n` lines.
pub open spec fn fields_of(lines: Seq<Seq<char>>, n: int) -> Seq<FieldView>
    decreases n,
{
    if n <= 0 {
        Seq::empty()
    } else {
        match field_of(lines[n - 1]) {
            Some(field) => fields_of(lines, n - 1).push(field),
            None => fields_of(lines, n - 1),
        }
    }
}

/// The fields as they stand in a vector.
pub open spec fn field_views(v: Seq<ProbeField>) -> Seq<FieldView> {
    v.map_values(|f: ProbeField| f@)
}

fn read_pixels(value: &[char]) -> (r: u32)
    ensures
        r == pixels_of(value@),
{
    match text::parse_number(text::trim(value), u32::MAX as u64) {
        Some(n) => n as u32,
        None => 0,
    }
}

fn read_field(line: &[char]) -> (r: Option<ProbeField>)
    ensures
        r is Some <==> field_of(line@) is Some,
        r matches Some(field) ==> field_of(line@) == Some(field@),
{
    match text::split_at_char(line, '=') {
        Some((key, value)) => {
            let key: &[char] = text::trim(key);
            proof {
                reveal_strlit("width");
                reveal_strlit("height");
                reveal_strlit("duration");
                reveal_strlit("r_frame_rate");
            }
            if text::same(key, "width") {
                Some(ProbeField::Width(read_pixels(value)))
            } else if text::same(key, "height") {
                Some(ProbeField::Height(read_pixels(value)))
            } else if text::same(key, "duration") {
                Some(ProbeField::Duration(text::string_of(value)))
            } else if text::same(key, "r_frame_rate") {
                Some(ProbeField::Rate(text::string_of(value)))
            } else {
                None
            }
        },
        None => None,
    }
}

/// The fields of an answer, in its order.
pub fn probe_fields(output: &str) -> (r: Vec<ProbeField>)
    ensures
        field_views(r@) == fields_of(
            text::line_seq(output@),
            text::line_seq(output@).len() as int,
        ),
{
    let cs: Vec<char> = text::chars_of(output);
    let lines: Vec<Vec<char>> = text::lines(cs.as_slice());
    let ghost ls = text::line_seq(output@);
    let mut r: Vec<ProbeField> = Vec::new();
    let mut i: usize = 0;
    assert(field_views(r@) =~= fields_of(ls, 0));
    while i < lines.len()
        invariant
            i <= lines@.len(),
            text::texts(lines@) == ls,
            field_views(r@) == fields_of(ls, i as int),
        decreases lines@.len() - i,
    {
        let line: &[char] = lines[i].as_slice();
        assert(ls[i as int] == line@);
        let ghost before = r@;
        if let Some(field) = read_field(line) {
            r.push(field);
            assert(field_views(r@) =~= field_views(before).push(field@));
        }
        i = i + 1;
    }
    r
}

/// One field of an answer, with its value read.
#[derive(Clone, Copy, Debug, PartialEq, Eq)]
pub enum ProbeValue {
    Width(u32),
    Height(u32),
    /// In milliseconds.
    Duration(u64),
    /// So many frames in so many seconds, where that could be read.
    Rate(Option<(u64, u64)>),
}

/// What is known of the video of a medium.
#[derive(Clone, Copy, Debug, PartialEq, Eq, Structural)]
pub struct VideoProbe {
    pub width: u32,
    pub height: u32,
    pub duration_ms: u64,
    pub fps_num: u64,
    pub fps_den: u64,
}

/// What is known before an answer was read: 30 frames a second, and nothing else.
pub open spec fn nothing_known() -> VideoProbe {
    VideoProbe { width: 0, height: 0, duration_ms: 0, fps_num: 30, fps_den: 1 }
}

/// What is known of the video after a field.
pub open spec fn learn(known: VideoProbe, value: ProbeValue) -> VideoProbe {
    match value {
        ProbeValue::Width(width) => VideoProbe { width, ..known },
        ProbeValue::Height(height) => VideoProbe { height, ..known },
        ProbeValue::Duration(duration_ms) => VideoProbe { duration_ms, ..known },
        ProbeValue::Rate(Some((fps_num, fps_den))) => VideoProbe { fps_num, fps_den, ..known },
        ProbeValue::Rate(None) => known,
    }
}

/// What is known of the video after the first `n` fields.
pub open spec fn learned(values: Seq<ProbeValue>, n: int) -> VideoProbe
    decreases n,
{
    if n <= 0 {
        nothing_known()
    } else {
        learn(learned(values, n - 1), values[n - 1])
    }
}

/// Why a medium cannot be played.
#[derive(Clone, Copy, Debug, PartialEq, Eq, Structural)]
pub enum ProbeError {
    /// The answer names no width or no height.
    NoDimensions,
}

impl ProbeError {
    /// What is said of the error.
    pub fn message(self) -> (r: String)
        ensures
            r@ == "ffprobe did not return video dimensions"@,
    {
        text::copy_string("ffprobe did not return video dimensions")
    }
}

/// What an answer says of the video: of several fields of a kind the last counts, and a frame rate
/// that could not be read does not.
pub fn video_probe(values: &[ProbeValue]) -> (r: Result<VideoProbe, ProbeError>)
    ensures
        r == ({
            let known = learned(values@, values@.len() as int);
            if known.width == 0 || known.height == 0 {
                Err(ProbeError::NoDimensions)
            } else {
                Ok(known)
            }
        }),
{
    let mut known: VideoProbe = VideoProbe {
        width: 0,
        height: 0,
        duration_ms: 0,
        fps_num: 30,
        fps_den: 1,
    };
    let n: usize = values.len();
    let mut i: usize = 0;
    while i < n
        invariant
            n == values@.len(),
            i <= n,
            known == learned(values@, i as int),
        decreases n - i,
    {
        match values[i] {
            ProbeValue::Width(width) => {
                known.width = width;
            },
            ProbeValue::Height(height) => {
                known.height = height;
            },
            ProbeValue::Duration(duration_ms) => {
                known.duration_ms = duration_ms;
            },
            ProbeValue::Rate(rate) => {
                if let Some((num, den)) = rate {
                    known.fps_num = num;
                    known.fps_den = den;
                }
            },
        }
        i = i + 1;
    }
    if known.width == 0 || known.height == 0 {
        Err(ProbeError::NoDimensions)
    } else {
        Ok(known)
    }
}

/// What is known of a medium.
#[derive(Clone, Copy, Debug, PartialEq, Eq, Structural)]
pub struct LinuxMediaProbe {
    pub info: MediaInfo,
    pub fps_num: u64,
    pub fps_den: u64,
}

/// What is known of a medium, once its audio was asked for too: it has audio where the question
/// succeeded and the answer is not empty.
pub fn with_audio(video: VideoProbe, succeeded: bool, answer: &[u8]) -> (r: LinuxMediaProbe)
    ensures
        r == (LinuxMediaProbe {
            info: MediaInfo {
                width: video.width,
                height: video.height,
                duration_ms: video.duration_ms,
                has_audio: succeeded && answer@.len() > 0,
            },
            fps_num: video.fps_num,
            fps_den: video.fps_den,
        }),
{
    LinuxMediaProbe {
        info: MediaInfo {
            width: video.width,
            height: video.height,
            duration_ms: video.duration_ms,
            has_audio: succeeded && answer.len() > 0,
        },
        fps_num: video.fps_num,
        fps_den: video.fps_den,
    }
}

/// What is said where `ffprobe` failed.
pub fn probe_failure(stderr: &str) -> (r: String)
    ensures
        r@ == "ffprobe failed: "@ + text::trimmed(stderr@),
{
    let cs: Vec<char> = text::chars_of(stderr);
    let mut out: Vec<char> = Vec::new();
    text::push_str(&mut out, "ffprobe failed: ");
    text::push_all(&mut out, text::trim(cs.as_slice()));
    assert(out@ =~= "ffprobe failed: "@ + text::trimmed(stderr@));
    text::string_of(out.as_slice())
}

/// Two fields of the same kind.
pub open spec fn same_kind(a: ProbeValue, b: ProbeValue) -> bool {
    ||| a is Width && b is Width
    ||| a is Height && b is Height
    ||| a is Duration && b is Duration
    ||| a is Rate && b is Rate
}

/// Of two fields of the same kind the later counts, as though the earlier were not there; only a
/// frame rate that could not be read leaves an earlier one in force.
pub proof fn law_last_field_counts(values: Seq<ProbeValue>, first: ProbeValue, second: ProbeValue)
    requires
        same_kind(first, second),
        second != ProbeValue::Rate(None),
    ensures
        learned(values.push(first).push(second), values.len() + 2int) == learned(
            values.push(second),
            values.len() + 1int,
        ),
        learned(values.push(first).push(ProbeValue::Rate(None)), values.len() + 2int) == learned(
            values.push(first),
            values.len() + 1int,
        ),
{
    let n = values.len() as int;
    lemma_learned_prefix(values, first, n);
    lemma_learned_prefix(values, second, n);
    lemma_learned_prefix(values.push(first), second, n + 1);
    lemma_learned_prefix(values.push(first), ProbeValue::Rate(None), n + 1);
}

/// What is known after some fields does not depend on a field behind them.
proof fn lemma_learned_prefix(values: Seq<ProbeValue>, value: ProbeValue, n: int)
    requires
        n <= values.len(),
    ensures
        learned(values.push(value), n) == learned(values, n),
    decreases n,
{
    if n > 0 {
        lemma_learned_prefix(values, value, n - 1);
        assert(values.push(value)[n - 1] == values[n - 1]);
    }
}

// ---------------------------------------------------------------------------------------------
// The questions
// ---------------------------------------------------------------------------------------------

fn push_arg(args: &mut Vec<String>, arg: &str)
    ensures
        string_views(final(args)@) == string_views(old(args)@).push(arg@),
{
    let ghost before = args@;
    args.push(text::copy_string(arg));
    assert(string_views(args@) =~= string_views(before).push(arg@));
}

/// The arguments of `ffprobe` that ask for the video of a medium.
pub open spec fn video_question(url: Seq<char>) -> Seq<Seq<char>> {
    seq![
        "-v"@,
        "error"@,
        "-select_streams"@,
        "v:0"@,
        "-show_entries"@,
        "stream=width,height,r_frame_rate"@,
        "-show_entries"@,
        "format=duration"@,
        "-of"@,
        "default=noprint_wrappers=1:nokey=0"@,
        url,
    ]
}

/// The arguments of `ffprobe` that ask for the video of a medium.
pub fn video_probe_args(url: &str) -> (r: Vec<String>)
    ensures
        string_views(r@) == video_question(url@),
{
    let mut args: Vec<String> = Vec::new();
    push_arg(&mut args, "-v");
    push_arg(&mut args, "error");
    push_arg(&mut args, "-select_streams");
    push_arg(&mut args, "v:0");
    push_arg(&mut args, "-show_entries");
    push_arg(&mut args, "stream=width,height,r_frame_rate");
    push_arg(&mut args, "-show_entries");
    push_arg(&mut args, "format=duration");
    push_arg(&mut args, "-of");
    push_arg(&mut args, "default=noprint_wrappers=1:nokey=0");
    push_arg(&mut args, url);
    assert(string_views(args@) =~= video_question(url@));
    args
}

/// The arguments of `ffprobe` that ask for the audio of a medium.
pub open spec fn audio_question(url: Seq<char>) -> Seq<Seq<char>> {
    seq![
        "-v"@,
        "error"@,
        "-select_streams"@,
        "a:0"@,
        "-show_entries"@,
        "stream=codec_type"@,
        "-of"@,
        "csv=p=0"@,
        url,
    ]
}

/// The arguments of `ffprobe` that ask for the audio of a medium.
pub fn audio_probe_args(url: &str) -> (r: Vec<String>)
    ensures
        string_views(r@) == audio_question(url@),
{
    let mut args: Vec<String> = Vec::new();
    push_arg(&mut args, "-v");
    push_arg(&mut args, "error");
    push_arg(&mut args, "-select_streams");
    push_arg(&mut args, "a:0");
    push_arg(&mut args, "-show_entries");
    push_arg(&mut args, "stream=codec_type");
    push_arg(&mut args, "-of");
    push_arg(&mut args, "csv=p=0");
    push_arg(&mut args, url);
    assert(string_views(args@) =~= audio_question(url@));
    args
}

/// The arguments that skip to the start, where that is not the beginning.
pub open spec fn skip_args(start_ms: u64, start: Seq<char>) -> Seq<Seq<char>> {
    if start_ms > 0 {
        seq!["-ss"@, start]
    } else {
        Seq::empty()
    }
}

/// The arguments of `ffmpeg` that decode the video of a medium.
pub open spec fn decoder_question(url: Seq<char>, start_ms: u64, start: Seq<char>) -> Seq<Seq<char>> {
    seq!["-hide_banner"@, "-loglevel"@, "error"@, "-nostats"@, "-re"@] + skip_args(start_ms, start)
        + seq![
        "-i"@,
        url,
        "-an"@,
        "-sn"@,
        "-dn"@,
        "-pix_fmt"@,
        "bgra"@,
        "-f"@,
        "rawvideo"@,
        "-"@,
    ]
}

/// The arguments of `ffmpeg` that decode the video of a medium from `start_ms` on; `start` is that
/// position in seconds.
pub fn decoder_args(url: &str, start_ms: u64, start: &str) -> (r: Vec<String>)
    ensures
        string_views(r@) == decoder_question(url@, start_ms, start@),
{
    let mut args: Vec<String> = Vec::new();
    push_arg(&mut args, "-hide_banner");
    push_arg(&mut args, "-loglevel");
    push_arg(&mut args, "error");
    push_arg(&mut args, "-nostats");
    push_arg(&mut args, "-re");
    if start_ms > 0 {
        push_arg(&mut args, "-ss");
        push_arg(&mut args, start);
    }
    push_arg(&mut args, "-i");
    push_arg(&mut args, url);
    push_arg(&mut args, "-an");
    push_arg(&mut args, "-sn");
    push_arg(&mut args, "-dn");
    push_arg(&mut args, "-pix_fmt");
    push_arg(&mut args, "bgra");
    push_arg(&mut args, "-f");
    push_arg(&mut args, "rawvideo");
    push_arg(&mut args, "-");
    assert(string_views(args@) =~= decoder_question(url@, start_ms, start@));
    args
}

/// The volume that is heard.
pub open spec fn heard(percent: u32, muted: bool) -> nat {
    if muted {
        0
    } else {
        percent as nat
    }
}

/// The arguments of `ffplay` that play the sound of a medium.
pub open spec fn sound_question(
    url: Seq<char>,
    start_ms: u64,
    start: Seq<char>,
    percent: u32,
    muted: bool,
) -> Seq<Seq<char>> {
    seq![
        "-nodisp"@,
        "-autoexit"@,
        "-hide_banner"@,
        "-loglevel"@,
        "error"@,
        "-volume"@,
        text::decimal(heard(percent, muted)),
    ] + skip_args(start_ms, start) + seq!["-i"@, url]
}

/// The arguments of `ffplay` that play the sound of a medium from `start_ms` on, at a volume in
/// percent or muted; `start` is that position in seconds.
pub fn sound_args(url: &str, start_ms: u64, start: &str, percent: u32, muted: bool) -> (r: Vec<
    String,
>)
    ensures
        string_views(r@) == sound_question(url@, start_ms, start@, percent, muted),
{
    let volume: u32 = if muted {
        0
    } else {
        percent
    };
    let digits: Vec<char> = text::to_decimal(volume as u128);
    let volume_text: String = text::string_of(digits.as_slice());
    let mut args: Vec<String> = Vec::new();
    push_arg(&mut args, "-nodisp");
    push_arg(&mut args, "-autoexit");
    push_arg(&mut args, "-hide_banner");
    push_arg(&mut args, "-loglevel");
    push_arg(&mut args, "error");
    push_arg(&mut args, "-volume");
    push_arg(&mut args, volume_text.as_str());
    if start_ms > 0 {
        push_arg(&mut args, "-ss");
        push_arg(&mut args, start);
    }
    push_arg(&mut args, "-i");
    push_arg(&mut args, url);
    assert(string_views(args@) =~= sound_question(url@, start_ms, start@, percent, muted));
    args
}

// ---------------------------------------------------------------------------------------------
// What reading owes an answer, and a question its medium
// ---------------------------------------------------------------------------------------------

/// A value is missing where nothing but white space stands there, or `N/A` within white space, and
/// nowhere else.
pub proof fn law_only_blanks_are_missing(a: Seq<char>, value: Seq<char>, b: Seq<char>)
    requires
        forall|i: int| 0 <= i < a.len() ==> text::is_white(a[i]),
        forall|i: int| 0 <= i < b.len() ==> text::is_white(b[i]),
        value.len() > 0 ==> !text::is_white(value[0]) && !text::is_white(value.last()),
    ensures
        is_missing(a + value + b) <==> value.len() == 0 || value == seq!['N', '/', 'A'],
{
    reveal_strlit("N/A");
    assert("N/A"@ =~= seq!['N', '/', 'A']);
    text::law_trimming_takes_white_space_only(a, value, b);
}

proof fn lemma_decimal_ends(n: nat)
    ensures
        ({
            let s = text::decimal(n);
            s.len() > 0 && !text::is_white(s[0]) && !text::is_white(s.last()) && !s.contains('/')
                && text::trimmed(s) == s
        }),
{
    text::lemma_decimal_digits(n);
    let s = text::decimal(n);
    assert forall|i: int| 0 <= i < s.len() implies !text::is_white(s[i]) && s[i] != '/' by {
        assert(text::is_digit(s[i]));
    }
    text::law_trimming_takes_white_space_only(Seq::empty(), s, Seq::empty());
    assert(Seq::empty() + s + Seq::empty() =~= s);
}

/// A ratio of two numbers is read back, with white space around it or without. One with a 0 is none,
/// and neither is a value without a slash.
pub proof fn law_ratio_is_read_back(a: Seq<char>, num: nat, den: nat, b: Seq<char>)
    requires
        forall|i: int| 0 <= i < a.len() ==> text::is_white(a[i]),
        forall|i: int| 0 <= i < b.len() ==> text::is_white(b[i]),
        num <= u64::MAX,
        den <= u64::MAX,
    ensures
        ratio_of(a + (text::decimal(num) + seq!['/'] + text::decimal(den)) + b) == (if num > 0 && den
            > 0 {
            Some((num, den))
        } else {
            None
        }),
        ratio_of(a + text::decimal(num) + b) is None,
{
    let n = text::decimal(num);
    let d = text::decimal(den);
    let value = n + seq!['/'] + d;
    lemma_decimal_ends(num);
    lemma_decimal_ends(den);
    assert(value[0] == n[0]);
    assert(value.last() == d.last());
    text::law_trimming_takes_white_space_only(a, value, b);
    text::law_trimming_takes_white_space_only(a, n, b);
    text::law_joined_texts_come_apart(n, '/', d);
    text::law_decimal_reads_back(num, u64::MAX as nat);
    text::law_decimal_reads_back(den, u64::MAX as nat);
}

/// A width or a height is read back, with white space around it or without. What is no number of
/// pixels is 0.
pub proof fn law_pixels_are_read_back(a: Seq<char>, n: nat, b: Seq<char>, value: Seq<char>)
    requires
        forall|i: int| 0 <= i < a.len() ==> text::is_white(a[i]),
        forall|i: int| 0 <= i < b.len() ==> text::is_white(b[i]),
    ensures
        n <= u32::MAX ==> pixels_of(a + text::decimal(n) + b) == n,
        n > u32::MAX ==> pixels_of(a + text::decimal(n) + b) == 0,
        text::number(text::trimmed(value), u32::MAX as nat) is None ==> pixels_of(value) == 0,
{
    lemma_decimal_ends(n);
    text::law_trimming_takes_white_space_only(a, text::decimal(n), b);
    if n <= u32::MAX {
        text::law_decimal_reads_back(n, u32::MAX as nat);
    } else {
        text::law_decimal_reads_back(n, n);
    }
}

/// A line says what stands behind its first equals sign of what stands before it: the value of a
/// field whole, to the last character, for the four fields that count, and nothing for any other.
pub proof fn law_field_is_read_back(a: Seq<char>, key: Seq<char>, b: Seq<char>, value: Seq<char>)
    requires
        forall|i: int| 0 <= i < a.len() ==> text::is_white(a[i]),
        forall|i: int| 0 <= i < b.len() ==> text::is_white(b[i]),
        key.len() > 0 ==> !text::is_white(key[0]) && !text::is_white(key.last()),
        !key.contains('='),
    ensures
        ({
            let line = (a + key + b) + seq!['='] + value;
            &&& key == "width"@ ==> field_of(line) == Some(FieldView::Width(pixels_of(value)))
            &&& key == "height"@ ==> field_of(line) == Some(FieldView::Height(pixels_of(value)))
            &&& key == "duration"@ ==> field_of(line) == Some(FieldView::Duration(value))
            &&& key == "r_frame_rate"@ ==> field_of(line) == Some(FieldView::Rate(value))
            &&& key != "width"@ && key != "height"@ && key != "duration"@ && key
                != "r_frame_rate"@ ==> field_of(line) is None
        }),
        field_of(a + key + b) is None,
{
    reveal_strlit("width");
    reveal_strlit("height");
    reveal_strlit("duration");
    reveal_strlit("r_frame_rate");
    let name = a + key + b;
    assert(!name.contains('=')) by {
        if name.contains('=') {
            let k = choose|k: int| 0 <= k < name.len() && name[k] == '=';
            if k < a.len() {
                assert(text::is_white(a[k]));
            } else if k < a.len() + key.len() {
                assert(key[k - a.len()] == '=');
            } else {
                assert(text::is_white(b[k - a.len() - key.len()]));
            }
        }
    }
    text::law_trimming_takes_white_space_only(a, key, b);
    text::law_joined_texts_come_apart(name, '=', value);
    assert("width"@.len() == 5 && "height"@.len() == 6 && "duration"@.len() == 8
        && "r_frame_rate"@.len() == 12);
}

/// Every line that names a field gives it, in the order of the lines, and no other line does.
pub proof fn law_every_field_is_read(lines: Seq<Seq<char>>, line: Seq<char>)
    ensures
        fields_of(Seq::empty(), 0) == Seq::<FieldView>::empty(),
        fields_of(lines.push(line), lines.len() + 1int) == (match field_of(line) {
            Some(field) => fields_of(lines, lines.len() as int).push(field),
            None => fields_of(lines, lines.len() as int),
        }),
{
    lemma_fields_prefix(lines, line, lines.len() as int);
}

proof fn lemma_fields_prefix(lines: Seq<Seq<char>>, line: Seq<char>, n: int)
    requires
        n <= lines.len(),
    ensures
        fields_of(lines.push(line), n) == fields_of(lines, n),
    decreases n,
{
    if n > 0 {
        lemma_fields_prefix(lines, line, n - 1);
    }
}

/// What is learned is kept as it was said, and what a value does not speak of stays. Values of
/// different kinds may come in any order. Before anything is said there is no picture, no duration,
/// and a rate of thirty frames a second.
pub proof fn law_values_are_learned(known: VideoProbe, value: ProbeValue, other: ProbeValue)
    ensures
        value matches ProbeValue::Width(n) ==> learn(known, value) == (VideoProbe {
            width: n,
            ..known
        }),
        value matches ProbeValue::Height(n) ==> learn(known, value) == (VideoProbe {
            height: n,
            ..known
        }),
        value matches ProbeValue::Duration(n) ==> learn(known, value) == (VideoProbe {
            duration_ms: n,
            ..known
        }),
        value matches ProbeValue::Rate(Some(rate)) ==> learn(known, value) == (VideoProbe {
            fps_num: rate.0,
            fps_den: rate.1,
            ..known
        }),
        value == ProbeValue::Rate(None) ==> learn(known, value) == known,
        !(value is Width && other is Width) && !(value is Height && other is Height) && !(
        value is Duration && other is Duration) && !(value is Rate && other is Rate) ==> learn(
            learn(known, value),
            other,
        ) == learn(learn(known, other), value),
        learned(Seq::empty(), 0).width == 0 && learned(Seq::empty(), 0).height == 0 && learned(
            Seq::empty(),
            0,
        ).duration_ms == 0,
        learned(Seq::empty(), 0).fps_num == 30 * learned(Seq::empty(), 0).fps_den && learned(
            Seq::empty(),
            0,
        ).fps_den == 1,
{
}

/// Everything that is said is learned, each value on top of those before it.
pub proof fn law_every_value_is_learned(values: Seq<ProbeValue>, value: ProbeValue)
    ensures
        learned(values.push(value), values.len() + 1int) == learn(
            learned(values, values.len() as int),
            value,
        ),
{
    lemma_learned_prefix(values, value, values.len() as int);
}

/// Every question names the medium it is about, by the address as it was given, once and, of a probe
/// and of the sound, at the end; behind `-i` for what is to be decoded or played.
pub proof fn law_questions_name_the_medium(
    url: Seq<char>,
    start_ms: u64,
    start: Seq<char>,
    percent: u32,
    muted: bool,
)
    ensures
        video_question(url).last() == url,
        audio_question(url).last() == url,
        sound_question(url, start_ms, start, percent, muted).last() == url,
        ({
            let q = sound_question(url, start_ms, start, percent, muted);
            q[q.len() - 2] == "-i"@
        }),
        ({
            let q = decoder_question(url, start_ms, start);
            q[q.len() - 9] == url && q[q.len() - 10] == "-i"@ && q.last() == "-"@
        }),
{
}

/// Two questions of a kind are alike only if they are about the same medium.
pub proof fn law_questions_tell_media_apart(
    url: Seq<char>,
    other: Seq<char>,
    start_ms: u64,
    start: Seq<char>,
    percent: u32,
    muted: bool,
)
    requires
        url != other,
    ensures
        video_question(url) != video_question(other),
        audio_question(url) != audio_question(other),
        decoder_question(url, start_ms, start) != decoder_question(other, start_ms, start),
        sound_question(url, start_ms, start, percent, muted) != sound_question(
            other,
            start_ms,
            start,
            percent,
            muted,
        ),
{
    law_questions_name_the_medium(url, start_ms, start, percent, muted);
    law_questions_name_the_medium(other, start_ms, start, percent, muted);
}

/// A program that starts later than at the beginning is told so right before the medium, with the
/// time as it was written; one that starts at the beginning is told nothing. Neither changes anything
/// else of the question.
pub proof fn law_start_is_told_before_the_medium(
    url: Seq<char>,
    start_ms: u64,
    start: Seq<char>,
    percent: u32,
    muted: bool,
)
    requires
        start_ms > 0,
    ensures
        ({
            let late = decoder_question(url, start_ms, start);
            let early = decoder_question(url, 0, start);
            &&& late == early.take(early.len() - 10) + seq!["-ss"@, start] + early.skip(
                early.len() - 10,
            )
            &&& early.len() == 15
        }),
        ({
            let late = sound_question(url, start_ms, start, percent, muted);
            let early = sound_question(url, 0, start, percent, muted);
            &&& late == early.take(early.len() - 2) + seq!["-ss"@, start] + early.skip(
                early.len() - 2,
            )
            &&& early.len() == 9
        }),
{
    let late = decoder_question(url, start_ms, start);
    let early = decoder_question(url, 0, start);
    assert(late =~= early.take(early.len() - 10) + seq!["-ss"@, start] + early.skip(
        early.len() - 10,
    ));
    let loud = sound_question(url, start_ms, start, percent, muted);
    let soft = sound_question(url, 0, start, percent, muted);
    assert(loud =~= soft.take(soft.len() - 2) + seq!["-ss"@, start] + soft.skip(soft.len() - 2));
}

/// The volume is named behind `-volume`, in percent as it was set, and is 0 while the sound is muted,
/// whatever was set.
pub proof fn law_muted_sound_has_no_volume(
    url: Seq<char>,
    start_ms: u64,
    start: Seq<char>,
    percent: u32,
)
    ensures
        ({
            let heard = sound_question(url, start_ms, start, percent, false);
            let muted = sound_question(url, start_ms, start, percent, true);
            &&& heard[5] == "-volume"@ && muted[5] == "-volume"@
            &&& text::number(heard[6], u32::MAX as nat) == Some(percent as nat)
            &&& text::number(muted[6], u32::MAX as nat) == Some(0nat)
            &&& heard.len() == muted.len()
        }),
{
    text::law_decimal_reads_back(percent as nat, u32::MAX as nat);
    text::law_decimal_reads_back(0, u32::MAX as nat);
}

/// What is shown of a field is the field as it is.
pub proof fn law_fields_are_shown_as_they_are(fields: Seq<ProbeField>, i: int)
    requires
        0 <= i < fields.len(),
    ensures
        field_views(fields).len() == fields.len(),
        fields[i] matches ProbeField::Width(n) ==> field_views(fields)[i] == FieldView::Width(
            n as nat,
        ),
        fields[i] matches ProbeField::Height(n) ==> field_views(fields)[i] == FieldView::Height(
            n as nat,
        ),
        fields[i] matches ProbeField::Duration(value) ==> field_views(fields)[i]
            == FieldView::Duration(value@),
        fields[i] matches ProbeField::Rate(value) ==> field_views(fields)[i] == FieldView::Rate(
            value@,
        ),
{
}

} // verus!
