//! The player as its user sees it: what it plays, where it is, and which commands go to the thread
//! that decodes.
use vstd::prelude::*;

use crate::stream_buffer;
use crate::stream_buffer::Progress;
use crate::text;
use crate::units;

verus! {

// ---------------------------------------------------------------------------------------------
// States and commands
// ---------------------------------------------------------------------------------------------

/// What a player is doing.
#[derive(Clone, Copy, Debug, PartialEq, Eq, Structural)]
pub enum PlayerState {
    Idle,
    Playing,
    Paused,
    Stopped,
    EndOfStream,
    Error,
}

/// The number that stands for a state.
pub open spec fn number_of_state(s: PlayerState) -> u8 {
    match s {
        PlayerState::Idle => 0,
        PlayerState::Playing => 1,
        PlayerState::Paused => 2,
        PlayerState::Stopped => 3,
        PlayerState::EndOfStream => 4,
        PlayerState::Error => 5,
    }
}

/// The state that a number stands for. A number that stands for none is taken for that of an idle
/// player.
pub open spec fn state_of_number(n: u8) -> PlayerState {
    if n == 1 {
        PlayerState::Playing
    } else if n == 2 {
        PlayerState::Paused
    } else if n == 3 {
        PlayerState::Stopped
    } else if n == 4 {
        PlayerState::EndOfStream
    } else if n == 5 {
        PlayerState::Error
    } else {
        PlayerState::Idle
    }
}

impl PlayerState {
    /// The number that stands for the state.
    pub fn as_u8(self) -> (n: u8)
        ensures
            n == number_of_state(self),
    {
        match self {
            PlayerState::Idle => 0,
            PlayerState::Playing => 1,
            PlayerState::Paused => 2,
            PlayerState::Stopped => 3,
            PlayerState::EndOfStream => 4,
            PlayerState::Error => 5,
        }
    }

    /// Whether there is nothing more to play.
    pub fn is_over(self) -> (r: bool)
        ensures
            r == (self == PlayerState::EndOfStream || self == PlayerState::Error),
    {
        self == PlayerState::EndOfStream || self == PlayerState::Error
    }
}

impl From<u8> for PlayerState {
    fn from(v: u8) -> (s: PlayerState) {
        match v {
            1 => PlayerState::Playing,
            2 => PlayerState::Paused,
            3 => PlayerState::Stopped,
            4 => PlayerState::EndOfStream,
            5 => PlayerState::Error,
            _ => PlayerState::Idle,
        }
    }
}

impl vstd::std_specs::convert::FromSpecImpl<u8> for PlayerState {
    open spec fn obeys_from_spec() -> bool {
        true
    }

    open spec fn from_spec(v: u8) -> PlayerState {
        state_of_number(v)
    }
}

/// A state that is sent as a number arrives as the same state.
pub proof fn law_state_survives_its_number(s: PlayerState)
    ensures
        state_of_number(number_of_state(s)) == s,
{
}

/// A command to the thread that decodes.
#[derive(Clone, Copy, Debug, PartialEq, Eq, Structural)]
pub enum Cmd {
    Play,
    Pause,
    Stop,
    /// Go to a position in milliseconds.
    Seek(u64),
    /// Set the volume, given by the bits of a floating-point number of 32 bits.
    SetVolume(u32),
    SetMute(bool),
}

// ---------------------------------------------------------------------------------------------
// Media
// ---------------------------------------------------------------------------------------------

/// A decoded frame: packed colours, row by row.
pub struct VideoFrame {
    pub width: u32,
    pub height: u32,
    pub data: Vec<u32>,
    pub timestamp_ms: u64,
}

/// What is known of a medium once it is open.
#[derive(Clone, Copy, Debug, PartialEq, Eq, Structural)]
pub struct MediaInfo {
    pub width: u32,
    pub height: u32,
    pub duration_ms: u64,
    pub has_audio: bool,
}

/// What is known of a medium, as a foreign caller gets it.
#[derive(Clone, Copy, Debug, PartialEq, Eq, Structural)]
pub struct SnekMediaInfo {
    pub width: u32,
    pub height: u32,
    pub duration_ms: u64,
    pub has_audio: bool,
}

impl From<MediaInfo> for SnekMediaInfo {
    fn from(info: MediaInfo) -> (r: SnekMediaInfo) {
        SnekMediaInfo {
            width: info.width,
            height: info.height,
            duration_ms: info.duration_ms,
            has_audio: info.has_audio,
        }
    }
}

impl vstd::std_specs::convert::FromSpecImpl<MediaInfo> for SnekMediaInfo {
    open spec fn obeys_from_spec() -> bool {
        true
    }

    open spec fn from_spec(info: MediaInfo) -> SnekMediaInfo {
        SnekMediaInfo {
            width: info.width,
            height: info.height,
            duration_ms: info.duration_ms,
            has_audio: info.has_audio,
        }
    }
}

/// A frame, as a foreign caller gets it; the pixels themselves stay with the player.
#[derive(Clone, Copy, Debug, PartialEq, Eq, Structural)]
pub struct SnekVideoFrame {
    pub width: u32,
    pub height: u32,
    /// How many pixels there are.
    pub data_len: usize,
    pub timestamp_ms: u64,
}

/// What a foreign caller gets of a frame.
pub open spec fn frame_record(frame: VideoFrame) -> SnekVideoFrame {
    SnekVideoFrame {
        width: frame.width,
        height: frame.height,
        data_len: frame.data@.len() as usize,
        timestamp_ms: frame.timestamp_ms,
    }
}

// ---------------------------------------------------------------------------------------------
// The player
// ---------------------------------------------------------------------------------------------

/// A player. The thread that decodes shares it with its user.
pub struct Player {
    /// The number that stands for the state.
    pub state: u8,
    /// The position in ticks of 100 ns.
    pub position_100ns: i64,
    /// How many seeks the decoding thread has begun.
    pub seek_id: i64,
    /// The last seek that the decoding thread has finished.
    pub seek_done_id: i64,
    pub duration_ms: u64,
    pub width: u32,
    pub height: u32,
    /// A decoding thread takes commands.
    pub connected: bool,
    pub last_frame: Option<VideoFrame>,
    pub current_url: String,
    pub is_hls: bool,
    pub current_hwnd: Option<isize>,
    /// How many segments were downloaded.
    pub download_progress: u64,
    /// How many segments there are to download.
    pub download_total: u64,
}

impl Player {
    /// The player once it was stopped.
    pub open spec fn stopped(self) -> Player {
        Player { state: 3, connected: false, ..self }
    }

    /// The player once a seek was asked for.
    pub open spec fn sought(self, ms: u64) -> Player {
        if self.connected {
            Player { position_100ns: (units::signed(ms) * 10_000) as i64, ..self }
        } else {
            self
        }
    }

    /// The player while a thread opens the medium at an address, at a position and for a window: it
    /// takes no commands yet.
    pub open spec fn opening(self, url: String, start_ms: u64, hwnd: Option<isize>) -> Player {
        Player {
            state: 2,
            connected: false,
            position_100ns: (units::signed(start_ms) * 10_000) as i64,
            current_url: url,
            is_hls: text::has(url@, ".m3u8"@),
            current_hwnd: hwnd,
            ..self
        }
    }

    /// The player once a frame was taken, where there was one: the last stays until the next comes.
    pub open spec fn showing(self, next: Option<VideoFrame>) -> Player {
        Player {
            last_frame: if next is Some {
                next
            } else {
                self.last_frame
            },
            ..self
        }
    }

    /// The record of the frame that is shown, if one is.
    pub open spec fn shown_frame(self) -> Option<SnekVideoFrame> {
        match self.last_frame {
            Some(frame) => Some(frame_record(frame)),
            None => None,
        }
    }

    /// The player once a medium was found.
    pub open spec fn with_medium(self, info: MediaInfo) -> Player {
        Player {
            width: info.width,
            height: info.height,
            duration_ms: info.duration_ms,
            connected: true,
            ..self
        }
    }

    /// The command, if a thread takes commands.
    pub open spec fn command(self, cmd: Cmd) -> Option<Cmd> {
        if self.connected {
            Some(cmd)
        } else {
            None
        }
    }

    /// The position that the player shows.
    pub open spec fn shown_position(self) -> int {
        units::ms_in(self.position_100ns as int)
    }

    /// A player that plays nothing.
    pub fn new() -> (r: Player)
        ensures
            state_of_number(r.state) == PlayerState::Idle,
            r.state == 0,
            r.position_100ns == 0,
            r.seek_id == 0,
            r.seek_done_id == 0,
            r.duration_ms == 0,
            r.width == 0,
            r.height == 0,
            !r.connected,
            r.last_frame is None,
            r.current_url@ == Seq::<char>::empty(),
            !r.is_hls,
            r.current_hwnd is None,
            r.download_progress == 0,
            r.download_total == 0,
    {
        Player {
            state: 0,
            position_100ns: 0,
            seek_id: 0,
            seek_done_id: 0,
            duration_ms: 0,
            width: 0,
            height: 0,
            connected: false,
            last_frame: None,
            current_url: String::new(),
            is_hls: false,
            current_hwnd: None,
            download_progress: 0,
            download_total: 0,
        }
    }

    /// Begins to open a medium: the player waits, at the start position, for a thread to report on
    /// it.
    pub fn open(&mut self, source: &str, start_ms: u64, hwnd: Option<isize>)
        requires
            units::ticks_fit(start_ms),
        ensures
            final(self).current_url@ == source@,
            *final(self) == old(self).opening(final(self).current_url, start_ms, hwnd),
    {
        self.connected = false;
        self.position_100ns = units::ticks_of_ms(start_ms);
        self.current_url = text::copy_string(source);
        let cs: Vec<char> = text::chars_of(source);
        self.is_hls = text::contains_str(cs.as_slice(), ".m3u8");
        self.current_hwnd = hwnd;
        self.state = PlayerState::Paused.as_u8();
    }

    /// Takes the report of the thread on the medium. Where the medium could not be opened, the
    /// player takes no commands.
    pub fn opened(&mut self, report: Result<MediaInfo, String>) -> (r: Result<MediaInfo, String>)
        ensures
            r == report,
            *final(self) == (match report {
                Ok(info) => old(self).with_medium(info),
                Err(_) => *old(self),
            }),
    {
        if let Ok(info) = &report {
            self.width = info.width;
            self.height = info.height;
            self.duration_ms = info.duration_ms;
            self.connected = true;
        }
        report
    }

    /// The command to play.
    pub fn play(&self) -> (r: Option<Cmd>)
        ensures
            r == self.command(Cmd::Play),
    {
        if self.connected {
            Some(Cmd::Play)
        } else {
            None
        }
    }

    /// The command to pause.
    pub fn pause(&self) -> (r: Option<Cmd>)
        ensures
            r == self.command(Cmd::Pause),
    {
        if self.connected {
            Some(Cmd::Pause)
        } else {
            None
        }
    }

    /// The command to go to a position. The player shows that position at once, so that it does not
    /// jump back before the thread has gone there.
    pub fn seek_ms(&mut self, ms: u64) -> (r: Option<Cmd>)
        requires
            old(self).connected ==> units::ticks_fit(ms),
        ensures
            r == old(self).command(Cmd::Seek(ms)),
            *final(self) == old(self).sought(ms),
    {
        if self.connected {
            self.position_100ns = units::ticks_of_ms(ms);
            Some(Cmd::Seek(ms))
        } else {
            None
        }
    }

    /// The command to set the volume, given by the bits of a floating-point number.
    pub fn set_volume(&self, volume: u32) -> (r: Option<Cmd>)
        ensures
            r == self.command(Cmd::SetVolume(volume)),
    {
        if self.connected {
            Some(Cmd::SetVolume(volume))
        } else {
            None
        }
    }

    /// The command to mute the sound, or not.
    pub fn set_mute(&self, mute: bool) -> (r: Option<Cmd>)
        ensures
            r == self.command(Cmd::SetMute(mute)),
    {
        if self.connected {
            Some(Cmd::SetMute(mute))
        } else {
            None
        }
    }

    /// Stops the player. The thread gets the command that is returned and no more.
    pub fn stop(&mut self) -> (r: Option<Cmd>)
        ensures
            r == old(self).command(Cmd::Stop),
            *final(self) == old(self).stopped(),
    {
        self.state = PlayerState::Stopped.as_u8();
        let r: Option<Cmd> = if self.connected {
            Some(Cmd::Stop)
        } else {
            None
        };
        self.connected = false;
        r
    }

    /// Takes the next frame, if there is one, and gives the frame to show: the last one that came.
    pub fn show_frame(&mut self, next: Option<VideoFrame>) -> (r: Option<SnekVideoFrame>)
        ensures
            *final(self) == old(self).showing(next),
            r == old(self).showing(next).shown_frame(),
    {
        if let Some(frame) = next {
            self.last_frame = Some(frame);
        }
        match &self.last_frame {
            Some(frame) => Some(
                SnekVideoFrame {
                    width: frame.width,
                    height: frame.height,
                    data_len: frame.data.len(),
                    timestamp_ms: frame.timestamp_ms,
                },
            ),
            None => None,
        }
    }

    /// What the player is doing.
    pub fn state(&self) -> (r: PlayerState)
        ensures
            r == state_of_number(self.state),
    {
        PlayerState::from(self.state)
    }

    /// The player once the download of `total` segments has begun.
    pub open spec fn downloading(self, total: u64) -> Player {
        Player { download_total: total, download_progress: 0, ..self }
    }

    /// The player once one more segment is done with; the count wraps.
    pub open spec fn one_more_segment(self) -> Player {
        Player {
            download_progress: (if self.download_progress == u64::MAX {
                0
            } else {
                self.download_progress + 1
            }) as u64,
            ..self
        }
    }

    /// Takes note that the download of `total` segments begins.
    pub fn begin_download(&mut self, total: u64)
        ensures
            *final(self) == old(self).downloading(total),
    {
        self.download_total = total;
        self.download_progress = 0;
    }

    /// Takes note that one more segment is done with.
    pub fn segment_done(&mut self)
        ensures
            *final(self) == old(self).one_more_segment(),
    {
        self.download_progress = self.download_progress.wrapping_add(1);
    }

    /// How much of the download is done.
    pub fn get_download_progress(&self) -> (r: Progress)
        ensures
            r == stream_buffer::progress_of(self.download_progress, self.download_total),
    {
        stream_buffer::progress(self.download_progress, self.download_total)
    }

    /// The position in milliseconds.
    pub fn position_ms(&self) -> (r: u64)
        ensures
            r == self.shown_position(),
    {
        units::ms_of_ticks(self.position_100ns)
    }

    /// The duration in milliseconds.
    pub fn duration_ms(&self) -> (r: u64)
        ensures
            r == self.duration_ms,
    {
        self.duration_ms
    }

    /// The width of the picture.
    pub fn width(&self) -> (r: u32)
        ensures
            r == self.width,
    {
        self.width
    }

    /// The height of the picture.
    pub fn height(&self) -> (r: u32)
        ensures
            r == self.height,
    {
        self.height
    }
}

// ---------------------------------------------------------------------------------------------
// Waiting for the thread
// ---------------------------------------------------------------------------------------------

/// What to do about a thread that was told to stop.
#[derive(Clone, Copy, Debug, PartialEq, Eq, Structural)]
pub enum StopWait {
    /// It has ended: it is joined.
    Join,
    /// It takes too long: it is left to itself.
    Abandon,
    /// It is given more time.
    Wait,
}

/// What to do about a thread that was told to stop so many nanoseconds ago: it is given half a
/// second.
pub open spec fn stop_step(finished: bool, elapsed_ns: u64) -> StopWait {
    if finished {
        StopWait::Join
    } else if elapsed_ns > 500_000_000 {
        StopWait::Abandon
    } else {
        StopWait::Wait
    }
}

/// What to do about a thread that was told to stop so many nanoseconds ago: it is given half a
/// second.
pub fn stop_wait(finished: bool, elapsed_ns: u64) -> (r: StopWait)
    ensures
        r == stop_step(finished, elapsed_ns),
{
    if finished {
        StopWait::Join
    } else if elapsed_ns > 500_000_000 {
        StopWait::Abandon
    } else {
        StopWait::Wait
    }
}

/// A seek is waited for: at most half a second, and only until the thread has finished a later seek
/// than `before`.
pub open spec fn is_awaited(elapsed_ns: u64, before: i64, finished: i64) -> bool {
    elapsed_ns < 500_000_000 && finished <= before
}

/// Whether to go on waiting for a seek that was asked for so many nanoseconds ago, when the last one
/// was `before`.
pub fn awaits_seek(elapsed_ns: u64, before: i64, finished: i64) -> (r: bool)
    ensures
        r == is_awaited(elapsed_ns, before, finished),
{
    elapsed_ns < 500_000_000 && finished <= before
}

// ---------------------------------------------------------------------------------------------
// Laws
// ---------------------------------------------------------------------------------------------

/// A player that was asked to go to a position shows that position at once.
pub proof fn law_seek_target_is_shown(p: Player, ms: u64)
    requires
        p.connected,
        ms <= i64::MAX,
        units::ticks_fit(ms),
    ensures
        p.sought(ms).shown_position() == ms,
{
    units::law_ms_survive_ticks(ms);
}

/// A player that was stopped gives no command until a medium is open again, and stopping it again
/// changes nothing.
pub proof fn law_stop_is_final(p: Player, cmd: Cmd, ms: u64)
    ensures
        p.stopped().command(cmd) is None,
        p.stopped().sought(ms) == p.stopped(),
        p.stopped().stopped() == p.stopped(),
        state_of_number(p.stopped().state) == PlayerState::Stopped,
{
}

/// The player once so many segments are done with.
pub open spec fn after_segments(p: Player, n: nat) -> Player
    decreases n,
{
    if n == 0 {
        p
    } else {
        after_segments(p, (n - 1) as nat).one_more_segment()
    }
}

/// Of a download of `total` segments, the progress is the part that is done with, and at the end the
/// whole.
pub proof fn law_progress_counts_segments(p: Player, total: u64, n: nat)
    requires
        0 < n <= total,
    ensures
        ({
            let now = after_segments(p.downloading(total), n);
            let progress = stream_buffer::progress_of(now.download_progress, now.download_total);
            progress.done == n && progress.whole == total
        }),
{
    lemma_after_segments(p.downloading(total), n);
}

/// Counting segments changes nothing else.
proof fn lemma_after_segments(p: Player, n: nat)
    requires
        p.download_progress == 0,
        n <= u64::MAX,
    ensures
        after_segments(p, n) == (Player { download_progress: n as u64, ..p }),
    decreases n,
{
    if n > 0 {
        lemma_after_segments(p, (n - 1) as nat);
    }
}

/// Seeking and stopping leave what is known of the medium as it is.
pub proof fn law_medium_outlives_commands(p: Player, info: MediaInfo, ms: u64)
    ensures
        p.with_medium(info).sought(ms).duration_ms == info.duration_ms,
        p.with_medium(info).sought(ms).stopped().width == info.width,
        p.with_medium(info).sought(ms).stopped().height == info.height,
{
}

/// The numbers of the states go up from 0 in the order idle, playing, paused, stopped, at the end,
/// failed. Any other number stands for idle.
pub proof fn law_states_are_numbered_in_order(n: u8)
    ensures
        0 <= number_of_state(PlayerState::Idle) < number_of_state(PlayerState::Playing)
            < number_of_state(PlayerState::Paused) < number_of_state(PlayerState::Stopped)
            < number_of_state(PlayerState::EndOfStream) < number_of_state(PlayerState::Error) <= 5,
        n <= 5 ==> number_of_state(state_of_number(n)) == n,
        n > 5 ==> state_of_number(n) == PlayerState::Idle,
{
}

/// A record of a medium or of a frame says what the medium or the frame does, in every field.
pub proof fn law_records_say_the_same(info: MediaInfo, frame: VideoFrame)
    requires
        frame.data@.len() <= usize::MAX,
    ensures
        ({
            let r = <SnekMediaInfo as vstd::std_specs::convert::FromSpec<MediaInfo>>::from_spec(
                info,
            );
            r.width == info.width && r.height == info.height && r.duration_ms == info.duration_ms
                && r.has_audio == info.has_audio
        }),
        frame_record(frame).width == frame.width && frame_record(frame).height == frame.height,
        frame_record(frame).data_len == frame.data@.len(),
        frame_record(frame).timestamp_ms == frame.timestamp_ms,
{
}

/// A player whose medium is being opened is paused at the position it is to start at, and takes no
/// commands. It is one of segments exactly where the address says so. What it knew of an earlier
/// medium stays until the new one is there.
pub proof fn law_opening_waits_for_the_medium(
    p: Player,
    url: String,
    start_ms: u64,
    hwnd: Option<isize>,
    cmd: Cmd,
)
    requires
        start_ms * 10_000 <= i64::MAX,
    ensures
        ({
            let after = p.opening(url, start_ms, hwnd);
            &&& state_of_number(after.state) == PlayerState::Paused
            &&& after.command(cmd) is None
            &&& after.shown_position() == start_ms
            &&& after.current_url@ == url@ && after.current_hwnd == hwnd
            &&& after.is_hls <==> text::has(url@, ".m3u8"@)
            &&& after.seek_id == p.seek_id && after.seek_done_id == p.seek_done_id
            &&& after.duration_ms == p.duration_ms && after.width == p.width && after.height
                == p.height
            &&& after.last_frame == p.last_frame
            &&& after.download_progress == p.download_progress && after.download_total
                == p.download_total
        }),
{
}

/// A frame that comes is shown, and stays shown until another comes.
pub proof fn law_last_frame_stays(p: Player, frame: VideoFrame)
    ensures
        p.showing(Some(frame)).shown_frame() == Some(frame_record(frame)),
        p.showing(None) == p,
        p.showing(Some(frame)).showing(None).shown_frame() == p.showing(Some(frame)).shown_frame(),
        p.showing(Some(frame)) == (Player { last_frame: Some(frame), ..p }),
        p.last_frame is None ==> p.showing(None).shown_frame() is None,
{
}

/// A command goes to the thread as it was given, if there is a thread to take it, and else nowhere.
/// Only a seek changes the player, and of it only the position.
pub proof fn law_commands_go_to_the_thread(p: Player, cmd: Cmd, ms: u64)
    requires
        ms * 10_000 <= i64::MAX,
    ensures
        p.connected ==> p.command(cmd) == Some(cmd),
        !p.connected ==> p.command(cmd) is None && p.sought(ms) == p,
        p.connected ==> p.sought(ms) == (Player { position_100ns: (ms * 10_000) as i64, ..p }),
        p.stopped() == (Player { state: 3, connected: false, ..p }),
{
}

/// A medium that is there makes the player take commands and sets its size and duration; nothing
/// else changes. The count of segments begins at 0 for every download and goes up by one.
pub proof fn law_medium_and_download_change_what_they_name(
    p: Player,
    info: MediaInfo,
    total: u64,
    cmd: Cmd,
)
    ensures
        p.with_medium(info).command(cmd) == Some(cmd),
        p.with_medium(info).width == info.width && p.with_medium(info).height == info.height
            && p.with_medium(info).duration_ms == info.duration_ms,
        p.with_medium(info) == (Player {
            width: info.width,
            height: info.height,
            duration_ms: info.duration_ms,
            connected: true,
            ..p
        }),
        p.downloading(total) == (Player { download_total: total, download_progress: 0, ..p }),
        p.download_progress < u64::MAX ==> p.one_more_segment() == (Player {
            download_progress: (p.download_progress + 1) as u64,
            ..p
        }),
{
}

/// A thread that was told to stop is joined as soon as it has ended, and left to itself only when it
/// has not ended for more than half a second. A seek is waited for less than half a second, and not
/// once a later one is finished.
pub proof fn law_waiting_is_bounded(finished: bool, elapsed_ns: u64, before: i64, done: i64)
    ensures
        stop_step(finished, elapsed_ns) is Join <==> finished,
        !finished ==> (stop_step(finished, elapsed_ns) is Abandon <==> elapsed_ns > 500_000_000),
        !finished ==> (stop_step(finished, elapsed_ns) is Wait <==> elapsed_ns <= 500_000_000),
        is_awaited(elapsed_ns, before, done) ==> elapsed_ns < 500_000_000 && done <= before,
        elapsed_ns < 500_000_000 && done <= before ==> is_awaited(elapsed_ns, before, done),
{
}

/// A number that is converted to a state is the state that it stands for.
pub proof fn law_conversion_reads_the_number(n: u8)
    ensures
        <PlayerState as vstd::std_specs::convert::FromSpec<u8>>::from_spec(n) == state_of_number(n),
{
}

} // verus!
