//! Decoding with the programs `ffmpeg` and `ffplay`: when they are started and stopped, and what
//! becomes of the frames.
use vstd::prelude::*;

use crate::pixels;
use crate::player::{Cmd, Player, PlayerState, VideoFrame};
use crate::units;

verus! {

// ---------------------------------------------------------------------------------------------
// Frames
// ---------------------------------------------------------------------------------------------

/// The larger of two numbers.
pub open spec fn larger(a: int, b: int) -> int {
    if a > b {
        a
    } else {
        b
    }
}

/// The number of ticks that a frame is shown, without regard to the size of machine integers.
pub open spec fn exact_interval(fps_num: u64, fps_den: u64) -> int {
    larger(10_000_000 * larger(fps_den as int, 1) / larger(fps_num as int, 1), 1)
}

/// The number of ticks that a frame is shown: a second over the frame rate, but at least one; an
/// absurdly low frame rate wraps.
pub fn frame_interval(fps_num: u64, fps_den: u64) -> (r: i64)
    ensures
        r == units::signed((exact_interval(fps_num, fps_den) % 0x1_0000_0000_0000_0000) as u64),
        exact_interval(fps_num, fps_den) <= i64::MAX ==> r == exact_interval(fps_num, fps_den),
{
    let num: u128 = if fps_num > 1 {
        fps_num as u128
    } else {
        1
    };
    let den: u128 = if fps_den > 1 {
        fps_den as u128
    } else {
        1
    };
    let whole: u128 = 10_000_000 * den;
    assert(whole / num <= whole) by (nonlinear_arith)
        requires
            num >= 1,
            whole >= 0,
    ;
    let quotient: u128 = whole / num;
    let interval: u128 = if quotient > 1 {
        quotient
    } else {
        1
    };
    let low: u64 = (interval % 0x1_0000_0000_0000_0000) as u64;
    units::to_signed(low)
}

/// The time stamp of a frame, without regard to the size of machine integers.
pub open spec fn exact_timestamp(start_ms: u64, index: u64, interval: i64) -> int {
    units::signed(start_ms) * 10_000 + units::signed(index) * interval
}

/// The time stamp of a frame, and what it is made of, are machine integers.
pub open spec fn timestamp_fits(start_ms: u64, index: u64, interval: i64) -> bool {
    &&& units::ticks_fit(start_ms)
    &&& i64::MIN <= units::signed(index) * interval <= i64::MAX
    &&& i64::MIN <= exact_timestamp(start_ms, index, interval) <= i64::MAX
}

/// Whether the time stamp of a frame, and what it is made of, are machine integers.
pub fn has_timestamp(start_ms: u64, index: u64, interval: i64) -> (r: bool)
    ensures
        r == timestamp_fits(start_ms, index, interval),
{
    if !units::has_ticks(start_ms) {
        return false;
    }
    let start: i64 = units::ticks_of_ms(start_ms);
    let i: i64 = units::to_signed(index);
    assert(-0x4000_0000_0000_0000_0000_0000_0000_0000 <= i * interval
        <= 0x4000_0000_0000_0000_0000_0000_0000_0000) by (nonlinear_arith)
        requires
            -0x8000_0000_0000_0000 <= i <= 0x7fff_ffff_ffff_ffff,
            -0x8000_0000_0000_0000 <= interval <= 0x7fff_ffff_ffff_ffff,
    ;
    let behind: i128 = i as i128 * interval as i128;
    let min: i128 = i64::MIN as i128;
    let max: i128 = i64::MAX as i128;
    min <= behind && behind <= max && min <= start as i128 + behind && start as i128 + behind <= max
}

/// The frame with a number, made of its bytes, for a decoder that was started at `start_ms`. The
/// player is then at the time stamp of the frame.
pub fn take_frame(
    player: &mut Player,
    bytes: &[u8],
    width: u32,
    height: u32,
    start_ms: u64,
    index: u64,
    interval: i64,
) -> (r: VideoFrame)
    requires
        timestamp_fits(start_ms, index, interval),
    ensures
        *final(player) == (Player {
            position_100ns: exact_timestamp(start_ms, index, interval) as i64,
            ..*old(player)
        }),
        r.width == width,
        r.height == height,
        r.data@.len() == bytes@.len() / 4,
        forall|k: int|
            0 <= k < r.data@.len() ==> #[trigger] r.data@[k] == pixels::bgra_at(bytes@, 4 * k),
        r.timestamp_ms == units::ms_in(exact_timestamp(start_ms, index, interval)),
{
    let data: Vec<u32> = pixels::bgra_frame(bytes);
    let timestamp: i64 = units::ticks_of_ms(start_ms) + units::to_signed(index) * interval;
    player.position_100ns = timestamp;
    VideoFrame { width, height, data, timestamp_ms: units::ms_of_ticks(timestamp) }
}

/// Frames follow each other at even distances.
pub proof fn law_frames_are_evenly_spaced(start_ms: u64, index: u64, interval: i64)
    requires
        index < i64::MAX,
    ensures
        exact_timestamp(start_ms, (index + 1) as u64, interval) == exact_timestamp(
            start_ms,
            index,
            interval,
        ) + interval,
        exact_timestamp(start_ms, 0, interval) == units::signed(start_ms) * 10_000,
{
    assert((index + 1) * interval == index * interval + interval) by (nonlinear_arith);
    assert(0 * interval == 0) by (nonlinear_arith);
}

/// A frame is shown for at least one tick, and at a whole number of frames a second for a second
/// over that number.
pub proof fn law_frames_take_time(fps: u64)
    requires
        1 <= fps <= 10_000_000,
    ensures
        exact_interval(fps, 1) == 10_000_000int / fps as int,
        1 <= exact_interval(fps, 1),
        exact_interval(fps, 1) * fps <= 10_000_000,
{
    let q = 10_000_000int / fps as int;
    assert(q >= 1 && q * fps <= 10_000_000) by (nonlinear_arith)
        requires
            1 <= fps <= 10_000_000,
            q == 10_000_000int / fps as int,
    ;
}

// ---------------------------------------------------------------------------------------------
// Programs
// ---------------------------------------------------------------------------------------------

/// The decoding of one medium.
#[derive(Clone, Copy, Debug, PartialEq, Eq, Structural)]
pub struct LinuxDecoder {
    /// The medium has audio.
    pub has_audio: bool,
    /// Where programs are started next.
    pub current_start_ms: u64,
    pub playing: bool,
    /// The volume, given by the bits of a floating-point number.
    pub volume: u32,
    pub muted: bool,
    /// The program that decodes video runs.
    pub decoder_runs: bool,
    /// The program that plays sound runs.
    pub audio_runs: bool,
}

/// What is to be started, once programs were stopped.
#[derive(Clone, Copy, Debug, PartialEq, Eq, Structural)]
pub enum Start {
    Nothing,
    /// The loop ends.
    Exit,
    /// The program that decodes video.
    Decoder,
    /// The program that plays sound.
    Audio,
}

/// What to do about a command: which programs to stop, and then what to start.
#[derive(Clone, Copy, Debug, PartialEq, Eq, Structural)]
pub struct LinuxStep {
    pub stop_decoder: bool,
    pub stop_audio: bool,
    pub start: Start,
}

/// What became of the program that decodes.
#[derive(Clone, Copy, Debug, PartialEq, Eq, Structural)]
pub enum DecoderStatus {
    Running,
    /// It has ended.
    Exited,
    /// It could not be asked.
    Failed,
}

impl LinuxDecoder {
    /// A program runs only while something plays, and the one that plays sound only where there is
    /// sound.
    pub open spec fn wf(self) -> bool {
        &&& self.decoder_runs ==> self.playing
        &&& self.audio_runs ==> self.playing && self.has_audio
    }

    /// The program that decodes runs just while something plays.
    pub open spec fn settled(self) -> bool {
        self.wf() && self.decoder_runs == self.playing
    }

    /// A command changes how the sound is played that is heard.
    pub open spec fn changes_sound(self, cmd: Cmd) -> bool {
        (cmd is SetVolume || cmd is SetMute) && self.playing && self.has_audio
    }

    /// The decoder after a command, given the position of the player.
    pub open spec fn commanded(self, cmd: Cmd, position: i64) -> LinuxDecoder {
        let here = units::ms_in(position as int) as u64;
        match cmd {
            Cmd::Play => self,
            Cmd::Pause => LinuxDecoder {
                current_start_ms: here,
                playing: false,
                decoder_runs: false,
                audio_runs: false,
                ..self
            },
            Cmd::Stop => LinuxDecoder {
                playing: false,
                decoder_runs: false,
                audio_runs: false,
                ..self
            },
            Cmd::Seek(ms) => LinuxDecoder {
                current_start_ms: ms,
                decoder_runs: false,
                audio_runs: false,
                ..self
            },
            Cmd::SetVolume(volume) => if self.changes_sound(cmd) {
                LinuxDecoder { volume, current_start_ms: here, audio_runs: false, ..self }
            } else {
                LinuxDecoder { volume, ..self }
            },
            Cmd::SetMute(muted) => if self.changes_sound(cmd) {
                LinuxDecoder { muted, current_start_ms: here, audio_runs: false, ..self }
            } else {
                LinuxDecoder { muted, ..self }
            },
        }
    }

    /// What to do about a command.
    pub open spec fn step_for(self, cmd: Cmd) -> LinuxStep {
        let stops = cmd is Pause || cmd is Stop || cmd is Seek;
        LinuxStep {
            stop_decoder: stops,
            stop_audio: stops || self.changes_sound(cmd),
            start: match cmd {
                Cmd::Play => if self.playing {
                    Start::Nothing
                } else {
                    Start::Decoder
                },
                Cmd::Stop => Start::Exit,
                Cmd::Seek(_) => if self.playing {
                    Start::Decoder
                } else {
                    Start::Nothing
                },
                _ => if self.changes_sound(cmd) {
                    Start::Audio
                } else {
                    Start::Nothing
                },
            },
        }
    }

    /// The player after a command.
    pub open spec fn player_after(self, cmd: Cmd, player: Player) -> Player {
        match cmd {
            Cmd::Pause => Player { state: 2, ..player },
            Cmd::Stop => Player { state: 3, ..player },
            Cmd::Seek(ms) => Player {
                position_100ns: (units::signed(ms) * 10_000) as i64,
                state: if self.playing {
                    player.state
                } else {
                    2
                },
                ..player
            },
            _ => player,
        }
    }

    /// The decoder once the program that decodes was started, or could not be.
    pub open spec fn decoder_started(self, started: bool) -> LinuxDecoder {
        LinuxDecoder { playing: started, decoder_runs: started, ..self }
    }

    /// The decoder once the program that plays sound was started, or could not be.
    pub open spec fn audio_started(self, started: bool) -> LinuxDecoder {
        LinuxDecoder { audio_runs: self.audio_runs || started, ..self }
    }

    /// The decoder once it was seen what became of the program that decodes.
    pub open spec fn polled(self, status: DecoderStatus) -> LinuxDecoder {
        if self.playing && self.decoder_runs && status != DecoderStatus::Running {
            LinuxDecoder { playing: false, decoder_runs: false, audio_runs: false, ..self }
        } else {
            self
        }
    }

    /// A medium that could not be probed: the player reports an error.
    pub fn probe_failed(player: &mut Player)
        ensures
            *final(player) == (Player { state: 5, ..*old(player) }),
    {
        player.state = PlayerState::Error.as_u8();
    }

    /// The decoder of a medium that is opened at `start_ms`, at full volume; `full_volume` are the
    /// bits of that number.
    pub fn new(player: &mut Player, has_audio: bool, start_ms: u64, full_volume: u32) -> (r:
        LinuxDecoder)
        requires
            units::ticks_fit(start_ms),
        ensures
            *final(player) == (Player {
                position_100ns: (units::signed(start_ms) * 10_000) as i64,
                ..*old(player)
            }),
            r == (LinuxDecoder {
                has_audio,
                current_start_ms: start_ms,
                playing: false,
                volume: full_volume,
                muted: false,
                decoder_runs: false,
                audio_runs: false,
            }),
            r.settled(),
    {
        player.position_100ns = units::ticks_of_ms(start_ms);
        LinuxDecoder {
            has_audio,
            current_start_ms: start_ms,
            playing: false,
            volume: full_volume,
            muted: false,
            decoder_runs: false,
            audio_runs: false,
        }
    }

    /// Takes a command.
    pub fn command(&mut self, player: &mut Player, cmd: Cmd) -> (r: LinuxStep)
        requires
            cmd matches Cmd::Seek(ms) ==> units::ticks_fit(ms),
        ensures
            *final(self) == old(self).commanded(cmd, old(player).position_100ns),
            *final(player) == old(self).player_after(cmd, *old(player)),
            r == old(self).step_for(cmd),
            old(self).wf() ==> final(self).wf(),
    {
        match cmd {
            Cmd::Play => {
                let start: Start = if self.playing {
                    Start::Nothing
                } else {
                    Start::Decoder
                };
                LinuxStep { stop_decoder: false, stop_audio: false, start }
            },
            Cmd::Pause => {
                self.current_start_ms = player.position_ms();
                self.decoder_runs = false;
                self.audio_runs = false;
                self.playing = false;
                player.state = PlayerState::Paused.as_u8();
                LinuxStep { stop_decoder: true, stop_audio: true, start: Start::Nothing }
            },
            Cmd::Stop => {
                self.decoder_runs = false;
                self.audio_runs = false;
                self.playing = false;
                player.state = PlayerState::Stopped.as_u8();
                LinuxStep { stop_decoder: true, stop_audio: true, start: Start::Exit }
            },
            Cmd::Seek(ms) => {
                self.current_start_ms = ms;
                player.position_100ns = units::ticks_of_ms(ms);
                self.decoder_runs = false;
                self.audio_runs = false;
                let start: Start = if self.playing {
                    Start::Decoder
                } else {
                    player.state = PlayerState::Paused.as_u8();
                    Start::Nothing
                };
                LinuxStep { stop_decoder: true, stop_audio: true, start }
            },
            Cmd::SetVolume(volume) => {
                self.volume = volume;
                self.restart_sound(player)
            },
            Cmd::SetMute(muted) => {
                self.muted = muted;
                self.restart_sound(player)
            },
        }
    }

    fn restart_sound(&mut self, player: &Player) -> (r: LinuxStep)
        ensures
            *final(self) == (if old(self).playing && old(self).has_audio {
                LinuxDecoder {
                    current_start_ms: player.shown_position() as u64,
                    audio_runs: false,
                    ..*old(self)
                }
            } else {
                *old(self)
            }),
            r == (LinuxStep {
                stop_decoder: false,
                stop_audio: old(self).playing && old(self).has_audio,
                start: if old(self).playing && old(self).has_audio {
                    Start::Audio
                } else {
                    Start::Nothing
                },
            }),
    {
        if self.playing && self.has_audio {
            self.current_start_ms = player.position_ms();
            self.audio_runs = false;
            LinuxStep { stop_decoder: false, stop_audio: true, start: Start::Audio }
        } else {
            LinuxStep { stop_decoder: false, stop_audio: false, start: Start::Nothing }
        }
    }

    /// Takes note that the program that decodes was started, or could not be. The result says
    /// whether the one that plays sound is to be started too.
    pub fn on_decoder_start(&mut self, player: &mut Player, started: bool) -> (r: bool)
        ensures
            *final(self) == old(self).decoder_started(started),
            *final(player) == (Player {
                state: if started {
                    1
                } else {
                    5
                },
                ..*old(player)
            }),
            r == (started && old(self).has_audio),
            old(self).wf() && !old(self).audio_runs ==> final(self).settled(),
    {
        self.playing = started;
        self.decoder_runs = started;
        if started {
            player.state = PlayerState::Playing.as_u8();
            self.has_audio
        } else {
            player.state = PlayerState::Error.as_u8();
            false
        }
    }

    /// Takes note that the program that plays sound was started, or could not be: the video plays on
    /// without sound.
    pub fn on_audio_start(&mut self, started: bool)
        ensures
            *final(self) == old(self).audio_started(started),
    {
        if started {
            self.audio_runs = true;
        }
    }

    /// Takes note of what became of the program that decodes. The result says whether both programs
    /// are to be stopped.
    pub fn poll(&mut self, player: &mut Player, status: DecoderStatus) -> (r: bool)
        ensures
            *final(self) == old(self).polled(status),
            r == (old(self).playing && old(self).decoder_runs && status
                != DecoderStatus::Running),
            *final(player) == (Player {
                state: if !r {
                    old(player).state
                } else if status == DecoderStatus::Exited {
                    4
                } else {
                    5
                },
                ..*old(player)
            }),
            old(self).settled() ==> final(self).settled(),
    {
        if !self.playing || !self.decoder_runs {
            return false;
        }
        match status {
            DecoderStatus::Running => false,
            DecoderStatus::Exited => {
                self.playing = false;
                self.decoder_runs = false;
                self.audio_runs = false;
                player.state = PlayerState::EndOfStream.as_u8();
                true
            },
            DecoderStatus::Failed => {
                self.playing = false;
                self.decoder_runs = false;
                self.audio_runs = false;
                player.state = PlayerState::Error.as_u8();
                true
            },
        }
    }
}

// ---------------------------------------------------------------------------------------------
// Laws
// ---------------------------------------------------------------------------------------------

/// Whatever commands come, the program that decodes runs just while something plays, and sound is
/// played only with it: so it is after a command that starts nothing, and after the start that a
/// command asks for, whether that succeeds or not.
pub proof fn law_programs_follow_playing(
    d: LinuxDecoder,
    cmd: Cmd,
    position: i64,
    decoder_started: bool,
    audio_started: bool,
)
    requires
        d.settled(),
    ensures
        ({
            let after = d.commanded(cmd, position);
            match d.step_for(cmd).start {
                Start::Nothing | Start::Exit => after.settled(),
                Start::Decoder => {
                    let with_decoder = after.decoder_started(decoder_started);
                    &&& !after.decoder_runs
                    &&& !after.audio_runs
                    &&& with_decoder.settled()
                    &&& decoder_started && d.has_audio ==> with_decoder.audio_started(
                        audio_started,
                    ).settled()
                },
                Start::Audio => !after.audio_runs && after.audio_started(audio_started).settled(),
            }
        }),
{
}

/// What was paused goes on where it stood: the next start is at the position of the player.
pub proof fn law_playing_goes_on_where_it_stood(
    d: LinuxDecoder,
    position: i64,
    volume: u32,
    muted: bool,
)
    ensures
        ({
            let paused = d.commanded(Cmd::Pause, position);
            &&& paused.current_start_ms == units::ms_in(position as int) as u64
            &&& paused.commanded(Cmd::SetVolume(volume), position).commanded(
                Cmd::SetMute(muted),
                position,
            ).current_start_ms == paused.current_start_ms
            &&& paused.step_for(Cmd::Play).start == Start::Decoder
        }),
{
}

/// After a seek the next start is at its target, whether something plays or not.
pub proof fn law_seek_sets_the_start(d: LinuxDecoder, ms: u64, position: i64)
    ensures
        d.commanded(Cmd::Seek(ms), position).current_start_ms == ms,
        d.playing ==> d.step_for(Cmd::Seek(ms)).start == Start::Decoder,
        !d.playing ==> d.commanded(Cmd::Seek(ms), position).step_for(Cmd::Play).start
            == Start::Decoder,
{
}

/// A frame is shown for a second over the frame rate: as many frames as the rate names take no more
/// than their seconds, and a tick more for each would be too much. It is at least one tick, and a
/// rate without a number counts as 1.
pub proof fn law_frame_rate_fills_the_seconds(fps_num: u64, fps_den: u64)
    requires
        fps_num > 0,
        fps_den > 0,
    ensures
        ({
            let interval = exact_interval(fps_num, fps_den);
            &&& interval >= 1
            &&& interval > 1 ==> interval * fps_num <= 10_000_000 * fps_den
            &&& 10_000_000 * fps_den < (interval + 1) * fps_num
        }),
        exact_interval(0, fps_den) == exact_interval(1, fps_den),
        exact_interval(fps_num, 0) == exact_interval(fps_num, 1),
{
    let n = fps_num as int;
    let whole = 10_000_000 * fps_den;
    let q = whole / n;
    assert(q * n <= whole < (q + 1) * n && q >= 0) by (nonlinear_arith)
        requires
            q == whole / n,
            n > 0,
            whole >= 0,
    ;
    let interval = exact_interval(fps_num, fps_den);
    if q < 1 {
        assert(interval == 1);
        assert((q + 1) * n == n && (interval + 1) * n == 2 * n) by (nonlinear_arith)
            requires
                q == 0,
                interval == 1,
        ;
    } else {
        assert(interval == q);
    }
}

/// Frames of the first hundred years have time stamps.
pub proof fn law_ordinary_frames_have_time_stamps(start_ms: u64, index: u64, interval: i64)
    requires
        start_ms <= 3_153_600_000_000,
        index <= 1_000_000_000,
        0 <= interval <= 1_000_000_000,
    ensures
        timestamp_fits(start_ms, index, interval),
        exact_timestamp(start_ms, index, interval) >= start_ms * 10_000,
{
    assert(0 <= index * interval <= 1_000_000_000 * 1_000_000_000) by (nonlinear_arith)
        requires
            0 <= index <= 1_000_000_000,
            0 <= interval <= 1_000_000_000,
    ;
}

/// Commands change no more than they say. Whether there is sound never changes, the volume and the
/// muting are as they were set last, whether it plays is ended by pausing and stopping, and where the
/// next start is does not move on playing and stopping.
pub proof fn law_commands_change_what_they_name(d: LinuxDecoder, cmd: Cmd, position: i64)
    ensures
        ({
            let after = d.commanded(cmd, position);
            &&& after.has_audio == d.has_audio
            &&& cmd is Play ==> after == d
            &&& cmd is Pause || cmd is Stop ==> !after.playing && !after.decoder_runs
                && !after.audio_runs
            &&& !(cmd is Pause || cmd is Stop) ==> after.playing == d.playing
            &&& cmd matches Cmd::SetVolume(volume) ==> after.volume == volume
            &&& !(cmd is SetVolume) ==> after.volume == d.volume
            &&& cmd matches Cmd::SetMute(muted) ==> after.muted == muted
            &&& !(cmd is SetMute) ==> after.muted == d.muted
            &&& cmd is Seek ==> !after.decoder_runs && !after.audio_runs
            &&& cmd is SetVolume || cmd is SetMute ==> after.decoder_runs == d.decoder_runs
            &&& cmd is SetVolume || cmd is SetMute ==> (if d.playing && d.has_audio {
                after.current_start_ms == units::ms_in(position as int) as u64 && !after.audio_runs
            } else {
                after.current_start_ms == d.current_start_ms && after.audio_runs == d.audio_runs
            })
            &&& cmd is Stop ==> after.current_start_ms == d.current_start_ms
        }),
{
}

/// What is stopped is what no longer runs: the program that decodes is stopped by pausing, stopping
/// and seeking, and the one that plays sound by those and wherever the sound changes that is heard.
/// Only stopping ends the loop.
pub proof fn law_stopped_programs_do_not_run(d: LinuxDecoder, cmd: Cmd, position: i64)
    ensures
        ({
            let step = d.step_for(cmd);
            let after = d.commanded(cmd, position);
            &&& step.stop_decoder ==> step.stop_audio && !after.decoder_runs
            &&& !step.stop_decoder ==> after.decoder_runs == d.decoder_runs
            &&& step.stop_audio ==> !after.audio_runs
            &&& !step.stop_audio ==> after.audio_runs == d.audio_runs
            &&& step.stop_decoder <==> cmd is Pause || cmd is Stop || cmd is Seek
            &&& step.start is Exit <==> cmd is Stop
            &&& step.start is Audio <==> (cmd is SetVolume || cmd is SetMute) && d.playing
                && d.has_audio
            &&& step.start is Decoder <==> (cmd is Play && !d.playing) || (cmd is Seek && d.playing)
        }),
{
}

/// The player shows what a command did: paused, stopped, or at the target of a seek, and paused then
/// if nothing played. Nothing else about it changes.
pub proof fn law_player_shows_the_command(d: LinuxDecoder, cmd: Cmd, player: Player)
    requires
        cmd matches Cmd::Seek(ms) ==> ms * 10_000 <= i64::MAX,
    ensures
        ({
            let after = d.player_after(cmd, player);
            &&& cmd is Pause ==> after == (Player { state: 2, ..player })
            &&& cmd is Stop ==> after == (Player { state: 3, ..player })
            &&& cmd matches Cmd::Seek(ms) ==> after == (Player {
                position_100ns: (ms * 10_000) as i64,
                state: after.state,
                ..player
            })
            &&& cmd is Seek && d.playing ==> after.state == player.state
            &&& cmd is Seek && !d.playing ==> after.state == 2
            &&& cmd is Play || cmd is SetVolume || cmd is SetMute ==> after == player
        }),
{
}

/// A program that was started runs, and something plays exactly where the program that decodes could
/// be started. One that ends, or cannot be asked, ends the playing and the sound with it; one that
/// runs on changes nothing.
pub proof fn law_starts_and_ends_are_noted(d: LinuxDecoder, started: bool, status: DecoderStatus)
    ensures
        d.decoder_started(started).playing == started,
        d.decoder_started(started).decoder_runs == started,
        d.decoder_started(started) == (LinuxDecoder { playing: started, decoder_runs: started, ..d }),
        d.audio_started(true).audio_runs,
        d.audio_started(false) == d,
        d.audio_started(started) == (LinuxDecoder {
            audio_runs: d.audio_started(started).audio_runs,
            ..d
        }),
        status is Running || !d.playing || !d.decoder_runs ==> d.polled(status) == d,
        d.playing && d.decoder_runs && !(status is Running) ==> d.polled(status) == (LinuxDecoder {
            playing: false,
            decoder_runs: false,
            audio_runs: false,
            ..d
        }),
{
}

} // verus!
