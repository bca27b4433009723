//! The loop that decodes: which command changes what, where a seek goes, when a sample is due and
//! what becomes of it.
//!
//! Times are in nanoseconds from some fixed moment on; positions and time stamps are in ticks of
//! 100 ns.
use vstd::prelude::*;

use crate::player::{is_awaited, Cmd, Player, PlayerState};
use crate::source;
use crate::source::is_last;
use crate::units;

verus! {

/// How far before its target a seek may land: one frame at 30 frames a second.
pub const SEEK_TOLERANCE: i64 = 333_333;

/// How far back a time stamp must jump to count as a new beginning: five seconds.
pub const BACKWARD_JUMP: i64 = 50_000_000;

/// The longest wait for a sample: one that is due later is delivered at once.
pub const LONGEST_WAIT_NS: u64 = 2_000_000_000;

/// The decoding of one medium.
#[derive(Clone, Copy, Debug, PartialEq, Eq, Structural)]
pub struct Decoder {
    /// The medium is read from a stream buffer, not from a file.
    pub buffered: bool,
    /// The medium is an HLS stream.
    pub is_hls: bool,
    /// The number of the video stream.
    pub video_index: u32,
    /// The number of the audio stream, where the medium itself has one.
    pub audio_index: Option<u32>,
    pub playing: bool,
    /// When the clock would have shown 0, while it runs.
    pub clock_start: Option<u64>,
    /// What the clock showed when it was stopped.
    pub elapsed_at_pause: u64,
    /// The time stamp at which the clock shows 0.
    pub pts_start: Option<i64>,
    /// Where an HLS stream that is read from a buffer was started or sought to.
    pub pts_offset: i64,
    /// No sample has come since the last seek that is near its target.
    pub seeking: bool,
    /// Where the last seek goes.
    pub seek_target: i64,
    /// The seek that was asked for and has not begun.
    pub pending_seek: Option<u64>,
}

/// What to do about a command.
#[derive(Clone, Copy, Debug, PartialEq, Eq, Structural)]
pub enum CommandStep {
    /// The loop ends.
    Exit,
    Nothing,
    /// Sound that waits to be played is dropped.
    FlushAudio,
    SetVolume(u32),
    SetMute(bool),
}

/// A seek that has begun.
#[derive(Clone, Copy, Debug, PartialEq, Eq, Structural)]
pub struct SeekStep {
    /// The number of the seek.
    pub id: i64,
    /// The position to ask of the stream buffers, where they are asked.
    pub request_ms: Option<u64>,
    /// The position to set the reader to.
    pub reader_position: i64,
}

/// What to do when there are no commands left.
#[derive(Clone, Copy, Debug, PartialEq, Eq, Structural)]
pub enum LoopStep {
    /// The loop ends.
    Exit,
    /// Nothing plays.
    Idle,
    /// A sample is to be read.
    Read,
}

/// What a sample holds.
#[derive(Clone, Copy, Debug, PartialEq, Eq, Structural)]
pub enum SampleKind {
    Audio,
    Video,
    Other,
}

/// What to do about what the reader gave.
#[derive(Clone, Copy, Debug, PartialEq, Eq, Structural)]
pub enum SampleStep {
    /// The loop ends.
    Exit,
    /// There is nothing to deliver.
    Again,
    /// The sample is delivered after so many nanoseconds.
    Deliver(u64, SampleKind),
}

impl Decoder {
    // ------------------------------------------------------------------------------------------
    // The model
    // ------------------------------------------------------------------------------------------

    /// What the clock shows.
    pub open spec fn media_time(self, now: u64) -> int {
        match self.clock_start {
            Some(start) => if now >= start {
                now - start
            } else {
                0
            },
            None => self.elapsed_at_pause as int,
        }
    }

    /// The clock was not started later than now.
    pub open spec fn clock_fits(self, now: u64) -> bool {
        &&& self.elapsed_at_pause <= now
        &&& self.clock_start matches Some(start) ==> start <= now
    }

    /// The decoder after a command.
    pub open spec fn commanded(self, cmd: Cmd, now: u64) -> Decoder {
        match cmd {
            Cmd::Play => Decoder {
                playing: true,
                clock_start: if self.clock_start is Some {
                    self.clock_start
                } else {
                    Some((now - self.elapsed_at_pause) as u64)
                },
                ..self
            },
            Cmd::Pause => Decoder {
                playing: false,
                clock_start: None,
                elapsed_at_pause: self.media_time(now) as u64,
                ..self
            },
            Cmd::Seek(ms) => Decoder { pending_seek: Some(ms), ..self },
            _ => self,
        }
    }

    /// The player after a command.
    pub open spec fn player_commanded(player: Player, cmd: Cmd) -> Player {
        Player {
            state: match cmd {
                Cmd::Play => 1,
                Cmd::Pause => 2,
                _ => player.state,
            },
            ..player
        }
    }

    /// What to do about a command.
    pub open spec fn step_for(cmd: Cmd) -> CommandStep {
        match cmd {
            Cmd::Stop => CommandStep::Exit,
            Cmd::Pause => CommandStep::FlushAudio,
            Cmd::SetVolume(volume) => CommandStep::SetVolume(volume),
            Cmd::SetMute(mute) => CommandStep::SetMute(mute),
            _ => CommandStep::Nothing,
        }
    }

    /// The decoder once a seek has begun.
    pub open spec fn sought(self, ms: u64) -> Decoder {
        let target = (units::signed(ms) * 10_000) as i64;
        Decoder {
            pending_seek: None,
            seeking: true,
            seek_target: target,
            pts_offset: if self.buffered && self.is_hls {
                target
            } else {
                0
            },
            clock_start: None,
            elapsed_at_pause: 0,
            pts_start: None,
            ..self
        }
    }

    /// The player once a seek has begun.
    pub open spec fn player_sought(player: Player, ms: u64) -> Player {
        Player {
            seek_id: (player.seek_id + 1) as i64,
            position_100ns: (units::signed(ms) * 10_000) as i64,
            ..player
        }
    }

    /// What is to be done about a seek that has begun.
    pub open spec fn seek_step(self, player: Player, ms: u64) -> SeekStep {
        SeekStep {
            id: (player.seek_id + 1) as i64,
            request_ms: if self.buffered && self.is_hls {
                Some(ms)
            } else {
                None
            },
            reader_position: if self.buffered && self.is_hls {
                0
            } else {
                (units::signed(ms) * 10_000) as i64
            },
        }
    }

    /// The player once a seek has ended.
    pub open spec fn player_arrived(player: Player, step: SeekStep) -> Player {
        Player { seek_done_id: step.id, ..player }
    }

    /// What to do when there are no commands left.
    pub open spec fn loop_step(self, player: Player) -> LoopStep {
        if player.state == 3 {
            LoopStep::Exit
        } else if self.playing {
            LoopStep::Read
        } else {
            LoopStep::Idle
        }
    }

    /// A sample comes before the target of a seek.
    pub open spec fn is_early(self, timestamp: i64) -> bool {
        self.seeking && !self.buffered && timestamp < self.seek_target - SEEK_TOLERANCE
    }

    /// The decoder once a seek has landed on a sample.
    pub open spec fn landed(self, timestamp: i64, now: u64) -> Decoder {
        if self.seeking {
            Decoder {
                seeking: false,
                pts_start: Some(timestamp),
                clock_start: Some(now),
                ..self
            }
        } else {
            self
        }
    }

    /// The player once a sample has come on which a seek may land. The time stamps of an HLS stream
    /// that is read from a buffer begin anew after a seek, so that the position stays at the target;
    /// any other medium is then at the sample.
    pub open spec fn player_landed(self, player: Player, timestamp: i64) -> Player {
        Player {
            position_100ns: if !self.seeking {
                player.position_100ns
            } else if self.buffered && self.is_hls {
                self.pts_offset
            } else {
                timestamp
            },
            ..player
        }
    }

    /// The decoder once it has seen whether the time stamps begin anew.
    pub open spec fn rebased(self, timestamp: i64) -> Decoder {
        match self.pts_start {
            Some(start) => if timestamp < start - BACKWARD_JUMP {
                Decoder { pts_start: Some(timestamp), ..self }
            } else {
                self
            },
            None => self,
        }
    }

    /// What the clock shows when a sample is due.
    pub open spec fn due(self, timestamp: i64) -> int {
        match self.pts_start {
            Some(start) => if timestamp > start {
                (timestamp - start) * 100
            } else {
                0
            },
            None => 0,
        }
    }

    /// How long a sample is held back.
    pub open spec fn wait_for(self, timestamp: i64, now: u64) -> int {
        if self.clock_start is Some && self.pts_start is Some {
            let wait = self.due(timestamp) - self.media_time(now);
            if 0 < wait < LONGEST_WAIT_NS {
                wait
            } else {
                0
            }
        } else {
            0
        }
    }

    /// What a sample of a stream holds.
    pub open spec fn kind_of(self, stream: u32) -> SampleKind {
        if self.audio_index == Some(stream) {
            SampleKind::Audio
        } else if stream == self.video_index {
            SampleKind::Video
        } else {
            SampleKind::Other
        }
    }

    /// The times that have to do with a sample are machine integers.
    pub open spec fn sample_fits(self, timestamp: i64) -> bool {
        let at = self.landed(timestamp, 0);
        &&& self.seeking && !self.buffered ==> self.seek_target - SEEK_TOLERANCE >= i64::MIN
        &&& !self.is_early(timestamp) ==> (match at.pts_start {
            Some(start) => {
                &&& start - BACKWARD_JUMP >= i64::MIN
                &&& at.clock_start is Some ==> {
                    let s = at.rebased(timestamp).pts_start->0;
                    timestamp - s <= i64::MAX && at.rebased(timestamp).due(timestamp) <= u64::MAX
                }
            },
            None => true,
        })
    }

    // ------------------------------------------------------------------------------------------
    // The loop
    // ------------------------------------------------------------------------------------------

    /// The decoder of a medium that is opened at `start_ms`.
    pub fn new(
        buffered: bool,
        is_hls: bool,
        video_index: u32,
        audio_index: Option<u32>,
        start_ms: u64,
    ) -> (r: Decoder)
        requires
            units::ticks_fit(start_ms),
        ensures
            r == (Decoder {
                buffered,
                is_hls,
                video_index,
                audio_index,
                playing: false,
                clock_start: None,
                elapsed_at_pause: 0,
                pts_start: None,
                pts_offset: (units::signed(start_ms) * 10_000) as i64,
                seeking: false,
                seek_target: 0,
                pending_seek: None,
            }),
    {
        Decoder {
            buffered,
            is_hls,
            video_index,
            audio_index,
            playing: false,
            clock_start: None,
            elapsed_at_pause: 0,
            pts_start: None,
            pts_offset: units::ticks_of_ms(start_ms),
            seeking: false,
            seek_target: 0,
            pending_seek: None,
        }
    }

    /// Takes a command.
    pub fn command(&mut self, player: &mut Player, cmd: Cmd, now: u64) -> (r: CommandStep)
        requires
            cmd is Play && old(self).clock_start is None ==> old(self).elapsed_at_pause <= now,
        ensures
            *final(self) == old(self).commanded(cmd, now),
            *final(player) == Decoder::player_commanded(*old(player), cmd),
            r == Decoder::step_for(cmd),
    {
        match cmd {
            Cmd::Stop => CommandStep::Exit,
            Cmd::Play => {
                self.playing = true;
                player.state = PlayerState::Playing.as_u8();
                if self.clock_start.is_none() {
                    self.clock_start = Some(now - self.elapsed_at_pause);
                }
                CommandStep::Nothing
            },
            Cmd::Pause => {
                self.playing = false;
                player.state = PlayerState::Paused.as_u8();
                if let Some(start) = self.clock_start {
                    self.elapsed_at_pause = if now >= start {
                        now - start
                    } else {
                        0
                    };
                }
                self.clock_start = None;
                CommandStep::FlushAudio
            },
            Cmd::Seek(ms) => {
                self.pending_seek = Some(ms);
                CommandStep::Nothing
            },
            Cmd::SetVolume(volume) => CommandStep::SetVolume(volume),
            Cmd::SetMute(mute) => CommandStep::SetMute(mute),
        }
    }

    /// Begins the seek that was asked for last, if one was. Stream buffers of an HLS stream are
    /// asked to begin at the target, so that their reader begins at 0; any other reader goes to the
    /// target itself.
    pub fn begin_seek(&mut self, player: &mut Player) -> (r: Option<SeekStep>)
        requires
            old(self).pending_seek matches Some(ms) ==> units::ticks_fit(ms) && old(player).seek_id
                < i64::MAX,
        ensures
            match old(self).pending_seek {
                Some(ms) => {
                    &&& *final(self) == old(self).sought(ms)
                    &&& *final(player) == Decoder::player_sought(*old(player), ms)
                    &&& r == Some(old(self).seek_step(*old(player), ms))
                },
                None => r is None && *final(self) == *old(self) && *final(player) == *old(player),
            },
    {
        match self.pending_seek {
            Some(ms) => {
                let target: i64 = units::ticks_of_ms(ms);
                let id: i64 = player.seek_id + 1;
                let anew: bool = self.buffered && self.is_hls;
                player.seek_id = id;
                player.position_100ns = target;
                self.pending_seek = None;
                self.seeking = true;
                self.seek_target = target;
                self.pts_offset = if anew {
                    target
                } else {
                    0
                };
                self.clock_start = None;
                self.elapsed_at_pause = 0;
                self.pts_start = None;
                let request_ms: Option<u64> = if anew {
                    Some(ms)
                } else {
                    None
                };
                let reader_position: i64 = if anew {
                    0
                } else {
                    target
                };
                Some(SeekStep { id, request_ms, reader_position })
            },
            None => None,
        }
    }

    /// Ends a seek, once the reader was told of it. The result says whether sound that waits to be
    /// played is dropped.
    pub fn finish_seek(&self, player: &mut Player, step: SeekStep, reader_moved: bool) -> (r: bool)
        ensures
            *final(player) == Decoder::player_arrived(*old(player), step),
            r == reader_moved,
    {
        player.seek_done_id = step.id;
        reader_moved
    }

    /// What to do when there are no commands left.
    pub fn next_step(&self, player: &Player) -> (r: LoopStep)
        ensures
            r == self.loop_step(*player),
    {
        if player.state == PlayerState::Stopped.as_u8() {
            LoopStep::Exit
        } else if self.playing {
            LoopStep::Read
        } else {
            LoopStep::Idle
        }
    }

    /// The reader failed, and the loop ends.
    pub fn read_failed(&self, player: &mut Player)
        ensures
            *final(player) == (Player { state: 5, ..*old(player) }),
    {
        player.state = PlayerState::Error.as_u8();
    }

    /// Whether the times that have to do with a sample are machine integers.
    pub fn can_take(&self, timestamp: i64) -> (r: bool)
        ensures
            r == self.sample_fits(timestamp),
    {
        if self.seeking && !self.buffered {
            if self.seek_target < i64::MIN + SEEK_TOLERANCE {
                return false;
            }
            if timestamp < self.seek_target - SEEK_TOLERANCE {
                return true;
            }
        }
        let pts_start: Option<i64> = if self.seeking {
            Some(timestamp)
        } else {
            self.pts_start
        };
        match pts_start {
            Some(start) => {
                if start < i64::MIN + BACKWARD_JUMP {
                    return false;
                }
                if !self.seeking && self.clock_start.is_none() {
                    return true;
                }
                let base: i64 = if timestamp < start - BACKWARD_JUMP {
                    timestamp
                } else {
                    start
                };
                let ahead: i128 = timestamp as i128 - base as i128;
                ahead <= i64::MAX as i128 && ahead <= 184_467_440_737_095_516
            },
            None => true,
        }
    }

    /// Takes what the reader gave: the number of the stream, flags, which say whether anything more
    /// will come, the time stamp, and whether there is a sample at all.
    ///
    /// An end of the streams that comes up during a seek is passed over, and so are the samples
    /// before the target of the seek.
    pub fn on_sample(
        &mut self,
        player: &mut Player,
        stream: u32,
        flags: u32,
        timestamp: i64,
        present: bool,
        now: u64,
    ) -> (r: SampleStep)
        requires
            !is_last(flags) && present ==> old(self).sample_fits(timestamp),
        ensures
            is_last(flags) && old(self).seeking ==> {
                &&& r == SampleStep::Again
                &&& *final(self) == (Decoder { seeking: false, ..*old(self) })
                &&& *final(player) == *old(player)
            },
            is_last(flags) && !old(self).seeking ==> {
                &&& r == SampleStep::Exit
                &&& *final(self) == *old(self)
                &&& *final(player) == (Player { state: 4, ..*old(player) })
            },
            !is_last(flags) && (!present || old(self).is_early(timestamp)) ==> {
                &&& r == SampleStep::Again
                &&& *final(self) == *old(self)
                &&& *final(player) == *old(player)
            },
            !is_last(flags) && present && !old(self).is_early(timestamp) ==> {
                &&& *final(self) == old(self).landed(timestamp, now).rebased(timestamp)
                &&& !final(self).seeking
                &&& r == SampleStep::Deliver(
                    final(self).wait_for(timestamp, now) as u64,
                    old(self).kind_of(stream),
                )
                &&& *final(player) == old(self).player_landed(*old(player), timestamp)
            },
    {
        if source::nothing_more(flags) {
            if self.seeking {
                self.seeking = false;
                return SampleStep::Again;
            }
            player.state = PlayerState::EndOfStream.as_u8();
            return SampleStep::Exit;
        }
        if !present {
            return SampleStep::Again;
        }
        if self.seeking {
            if !self.buffered && timestamp < self.seek_target - SEEK_TOLERANCE {
                return SampleStep::Again;
            }
            self.seeking = false;
            self.pts_start = Some(timestamp);
            self.clock_start = Some(now);
            player.position_100ns = if self.buffered && self.is_hls {
                self.pts_offset
            } else {
                timestamp
            };
        }
        if let Some(start) = self.pts_start {
            if timestamp < start - BACKWARD_JUMP {
                self.pts_start = Some(timestamp);
            }
        }
        let mut wait: u64 = 0;
        if let Some(clock_start) = self.clock_start {
            if let Some(start) = self.pts_start {
                let ahead: i64 = if timestamp > start {
                    timestamp - start
                } else {
                    0
                };
                let due: u64 = (ahead as u64) * 100;
                let elapsed: u64 = if now >= clock_start {
                    now - clock_start
                } else {
                    0
                };
                if due > elapsed && due - elapsed < LONGEST_WAIT_NS {
                    wait = due - elapsed;
                }
            }
        }
        let kind: SampleKind = if let Some(audio) = self.audio_index {
            if audio == stream {
                SampleKind::Audio
            } else if stream == self.video_index {
                SampleKind::Video
            } else {
                SampleKind::Other
            }
        } else if stream == self.video_index {
            SampleKind::Video
        } else {
            SampleKind::Other
        };
        SampleStep::Deliver(wait, kind)
    }

    /// The decoder once a picture is shown.
    pub open spec fn pictured(self, timestamp: i64) -> Decoder {
        Decoder {
            pts_start: if self.pts_start is Some {
                self.pts_start
            } else {
                Some(timestamp)
            },
            ..self
        }
    }

    /// The position once a picture is shown: that of the picture, unless the position is further on
    /// already; the target, during a seek.
    pub open spec fn pictured_position(self, timestamp: i64, position: i64) -> i64 {
        if self.seeking {
            self.seek_target
        } else if timestamp > position {
            timestamp
        } else {
            position
        }
    }

    /// Shows a picture whose time has come. The result is its time stamp in milliseconds.
    pub fn on_picture(&mut self, player: &mut Player, timestamp: i64) -> (r: u64)
        ensures
            *final(self) == old(self).pictured(timestamp),
            *final(player) == (Player {
                position_100ns: old(self).pictured_position(timestamp, old(player).position_100ns),
                ..*old(player)
            }),
            r == units::unsigned(units::cut_quotient(timestamp as int, 10_000) as i64),
    {
        if self.pts_start.is_none() {
            self.pts_start = Some(timestamp);
        }
        let reached: i64 = if self.seeking {
            self.seek_target
        } else {
            timestamp
        };
        if self.seeking || reached > player.position_100ns {
            player.position_100ns = reached;
        }
        units::stamp_ms(timestamp)
    }
}

// ---------------------------------------------------------------------------------------------
// Laws
// ---------------------------------------------------------------------------------------------

/// The clock stands still during a pause: what it showed at the pause is what it shows when playing
/// goes on, and it runs on from there.
pub proof fn law_clock_rests_while_paused(
    d: Decoder,
    paused: u64,
    resumed: u64,
    now: u64,
)
    requires
        d.clock_fits(paused),
        paused <= resumed <= now,
    ensures
        d.commanded(Cmd::Pause, paused).commanded(Cmd::Play, resumed).media_time(now)
            == d.media_time(paused) + (now - resumed),
{
}

/// On a clock that never runs backwards, no command, sample or seek makes the decoder's clock start
/// in the future, so that playing can always go on.
pub proof fn law_clock_keeps_to_the_past(d: Decoder, cmd: Cmd, ms: u64, timestamp: i64, then: u64, now: u64)
    requires
        d.clock_fits(then),
        then <= now,
    ensures
        d.clock_fits(now),
        d.commanded(cmd, now).clock_fits(now),
        d.sought(ms).clock_fits(now),
        d.landed(timestamp, now).clock_fits(now),
        d.rebased(timestamp).clock_fits(now),
        d.pictured(timestamp).clock_fits(now),
{
}

/// Of several seeks that were asked for, only the last is made.
pub proof fn law_last_seek_is_made(d: Decoder, first: u64, second: u64, now: u64, later: u64)
    ensures
        d.commanded(Cmd::Seek(first), now).commanded(Cmd::Seek(second), later) == d.commanded(
            Cmd::Seek(second),
            later,
        ),
        d.commanded(Cmd::Seek(second), later).pending_seek == Some(second),
{
}

/// The position that a player shows does not flicker during a seek: it is the target from the moment
/// when the seek was asked for, and the thread that makes the seek does not change it. When the seek
/// lands, an HLS stream that is read from a buffer is still at the target, and any other medium is at
/// the sample on which it landed, which in a file is no more than one frame before the target.
pub proof fn law_seek_does_not_flicker(d: Decoder, player: Player, ms: u64, timestamp: i64)
    requires
        player.connected,
        player.seek_id < i64::MAX,
        ms <= i64::MAX,
        units::ticks_fit(ms),
        !d.sought(ms).is_early(timestamp),
    ensures
        ({
            let asked = player.sought(ms);
            let begun = Decoder::player_sought(asked, ms);
            let ended = Decoder::player_arrived(begun, d.seek_step(asked, ms));
            let landed = d.sought(ms).player_landed(ended, timestamp);
            &&& asked.shown_position() == ms
            &&& begun.shown_position() == ms
            &&& ended.shown_position() == ms
            &&& d.buffered && d.is_hls ==> landed.shown_position() == ms
            &&& !(d.buffered && d.is_hls) ==> landed.position_100ns == timestamp
            &&& !d.buffered ==> landed.position_100ns >= ms * 10_000 - SEEK_TOLERANCE
        }),
{
    units::law_ms_survive_ticks(ms);
}

/// Who waits for a seek waits no longer than until the thread has made it.
pub proof fn law_finished_seek_is_not_awaited(
    d: Decoder,
    player: Player,
    ms: u64,
    elapsed_ns: u64,
)
    requires
        player.seek_id < i64::MAX,
    ensures
        ({
            let begun = Decoder::player_sought(player, ms);
            let ended = Decoder::player_arrived(begun, d.seek_step(player, ms));
            &&& !is_awaited(elapsed_ns, player.seek_id, ended.seek_done_id)
            &&& ended.seek_done_id == ended.seek_id
        }),
{
}

/// A seek in a file lands on the first sample that is no more than one frame before its target.
pub proof fn law_seek_lands_near_its_target(d: Decoder, ms: u64, timestamp: i64)
    requires
        !d.buffered,
        units::ticks_fit(ms),
    ensures
        d.sought(ms).is_early(timestamp) <==> timestamp < units::signed(ms) * 10_000 - 333_333,
{
}

/// A sample that is held back is delivered just when the clock shows that it is due.
pub proof fn law_held_sample_is_on_time(d: Decoder, timestamp: i64, now: u64, then: u64)
    requires
        d.clock_fits(now),
        d.wait_for(timestamp, now) > 0,
        then == now + d.wait_for(timestamp, now),
    ensures
        d.media_time(then) == d.due(timestamp),
{
}

/// Pictures never move the position back; only a seek does.
pub proof fn law_pictures_go_forward(d: Decoder, timestamp: i64, position: i64)
    requires
        !d.seeking,
    ensures
        d.pictured_position(timestamp, position) >= position,
        d.pictured_position(timestamp, position) >= timestamp,
{
}

/// Time stamps are counted from the one at which the clock shows 0: that one is due at 0, as is one
/// before it, and of two that are not before it the later is due later by the time between them.
pub proof fn law_samples_are_due_in_step(d: Decoder, start: i64, earlier: i64, later: i64)
    requires
        d.pts_start == Some(start),
    ensures
        d.due(start) == 0,
        earlier <= start ==> d.due(earlier) == 0,
        start <= earlier <= later ==> d.due(later) - d.due(earlier) == 100 * (later - earlier),
        earlier <= later ==> 0 <= d.due(earlier) <= d.due(later),
{
}

/// What the time stamps begin at does not matter: where all of them, and the one at which the clock
/// shows 0, are moved by the same amount, every sample is due at the same time and waits as long.
pub proof fn law_first_time_stamp_does_not_matter(
    d: Decoder,
    moved: Decoder,
    start: i64,
    moved_start: i64,
    timestamp: i64,
    moved_timestamp: i64,
    now: u64,
)
    requires
        d.pts_start == Some(start),
        moved == (Decoder { pts_start: Some(moved_start), ..d }),
        moved_timestamp - moved_start == timestamp - start,
    ensures
        moved.due(moved_timestamp) == d.due(timestamp),
        moved.wait_for(moved_timestamp, now) == d.wait_for(timestamp, now),
{
}

/// A sample that waits comes when as much time has passed on the clock as lies between its time
/// stamp and the first. One that does not wait is due already, or two seconds or more ahead.
/// Nothing waits before the clock runs or the first time stamp is known.
pub proof fn law_wait_ends_when_the_sample_is_due(
    d: Decoder,
    clock_start: u64,
    start: i64,
    timestamp: i64,
    now: u64,
)
    requires
        clock_start <= now,
        timestamp >= start,
    ensures
        ({
            let running = Decoder { clock_start: Some(clock_start), pts_start: Some(start), ..d };
            let wait = running.wait_for(timestamp, now);
            let ahead = 100 * (timestamp - start) - (now - clock_start);
            &&& 0 <= wait < 2_000_000_000
            &&& 0 < ahead < 2_000_000_000 ==> wait == ahead
            &&& ahead <= 0 || ahead >= 2_000_000_000 ==> wait == 0
        }),
        d.clock_start is None || d.pts_start is None ==> d.wait_for(timestamp, now) == 0,
{
}

/// The clock runs as fast as time passes, from 0 at its start, and stands still while it is stopped.
pub proof fn law_clock_runs_with_the_time(d: Decoder, clock_start: u64, then: u64, now: u64)
    requires
        clock_start <= then <= now,
    ensures
        ({
            let running = Decoder { clock_start: Some(clock_start), ..d };
            &&& running.media_time(clock_start) == 0
            &&& running.media_time(now) - running.media_time(then) == now - then
        }),
        d.clock_start is None ==> d.media_time(then) == d.media_time(now) && d.media_time(now)
            == d.elapsed_at_pause,
{
}

/// Commands change no more than they say: whether it plays and what the clock shows are up to playing
/// and pausing, the seek that is asked for to seeking, and nothing to the others. Neither where the
/// time stamps begin nor a seek that is under way is touched, and a second command of the same kind
/// changes nothing more.
pub proof fn law_commands_change_what_they_say(d: Decoder, cmd: Cmd, now: u64)
    ensures
        ({
            let after = d.commanded(cmd, now);
            &&& after.buffered == d.buffered && after.is_hls == d.is_hls
            &&& after.video_index == d.video_index && after.audio_index == d.audio_index
            &&& after.pts_start == d.pts_start && after.pts_offset == d.pts_offset
            &&& after.seeking == d.seeking && after.seek_target == d.seek_target
            &&& cmd is Play ==> after.playing && after.clock_start is Some
            &&& cmd is Play && d.clock_start is Some ==> after.clock_start == d.clock_start
            &&& cmd is Play && d.clock_start is None && d.elapsed_at_pause <= now
                ==> after.media_time(now) == d.media_time(now)
            &&& cmd is Pause ==> !after.playing && after.clock_start is None
            &&& cmd is Pause && d.clock_fits(now) ==> after.media_time(now) == d.media_time(now)
            &&& !(cmd is Play || cmd is Pause) ==> after.playing == d.playing && after.clock_start
                == d.clock_start && after.elapsed_at_pause == d.elapsed_at_pause
            &&& !(cmd is Seek) ==> after.pending_seek == d.pending_seek
            &&& cmd is Play ==> after.commanded(cmd, now) == after
            &&& cmd is Pause ==> after.commanded(cmd, now) == after
        }),
{
}

/// A seek that begins stops the clock at 0 and forgets where the time stamps began. The reader goes
/// to the target itself, or the stream buffers of an HLS stream are asked for it and their reader
/// goes to the beginning; never both.
pub proof fn law_seek_goes_to_its_target(d: Decoder, player: Player, ms: u64, now: u64)
    requires
        player.seek_id < i64::MAX,
        ms * 10_000 <= i64::MAX,
    ensures
        ({
            let begun = d.sought(ms);
            let step = d.seek_step(player, ms);
            &&& begun.seeking && begun.pending_seek is None
            &&& begun.seek_target == ms * 10_000
            &&& begun.clock_start is None && begun.media_time(now) == 0
            &&& begun.pts_start is None
            &&& begun.playing == d.playing && begun.buffered == d.buffered && begun.is_hls
                == d.is_hls
            &&& begun.video_index == d.video_index && begun.audio_index == d.audio_index
            &&& step.id == player.seek_id + 1
            &&& step.request_ms is Some <==> d.buffered && d.is_hls
            &&& step.request_ms matches Some(asked) ==> asked == ms
            &&& step.request_ms is Some ==> step.reader_position == 0 && begun.pts_offset == ms
                * 10_000
            &&& step.request_ms is None ==> step.reader_position == ms * 10_000
                && begun.pts_offset == 0
            &&& Decoder::player_sought(player, ms) == (Player {
                seek_id: (player.seek_id + 1) as i64,
                position_100ns: (ms * 10_000) as i64,
                ..player
            })
            &&& Decoder::player_arrived(player, step) == (Player { seek_done_id: step.id, ..player })
        }),
{
}

/// The sample on which a seek lands is delivered at once, and the clock shows 0 with it. Where no
/// seek is under way a sample changes neither the clock nor the position.
pub proof fn law_landing_starts_the_clock(d: Decoder, player: Player, timestamp: i64, now: u64)
    ensures
        ({
            let after = d.landed(timestamp, now);
            &&& !after.seeking
            &&& d.seeking ==> after.media_time(now) == 0 && after.due(timestamp) == 0
                && after.rebased(timestamp).wait_for(timestamp, now) == 0
            &&& d.seeking ==> after.pts_start == Some(timestamp) && after.clock_start is Some
            &&& !d.seeking ==> after == d && d.player_landed(player, timestamp) == player
            &&& after.playing == d.playing && after.pending_seek == d.pending_seek
            &&& after.elapsed_at_pause == d.elapsed_at_pause
            &&& after.pts_offset == d.pts_offset && after.seek_target == d.seek_target
            &&& after.buffered == d.buffered && after.is_hls == d.is_hls
            &&& after.video_index == d.video_index && after.audio_index == d.audio_index
            &&& d.player_landed(player, timestamp) == (Player {
                position_100ns: d.player_landed(player, timestamp).position_100ns,
                ..player
            })
        }),
{
}

/// Time stamps that jump back by more than five seconds begin anew, so that the sample is due at
/// once. Any smaller step back, and any step forward, changes nothing.
pub proof fn law_large_jump_back_begins_anew(d: Decoder, start: i64, timestamp: i64)
    requires
        d.pts_start == Some(start),
    ensures
        start - timestamp > 50_000_000 ==> d.rebased(timestamp) == (Decoder {
            pts_start: Some(timestamp),
            ..d
        }) && d.rebased(timestamp).due(timestamp) == 0,
        start - timestamp <= 50_000_000 ==> d.rebased(timestamp) == d,
        d.rebased(timestamp).rebased(timestamp) == d.rebased(timestamp),
{
}

/// Samples are passed over only during a seek in a file, and then those before some moment: a sample
/// before one that is passed over is passed over too.
pub proof fn law_early_samples_come_first(d: Decoder, earlier: i64, later: i64)
    requires
        earlier <= later,
    ensures
        d.is_early(later) ==> d.is_early(earlier),
        d.is_early(later) ==> d.seeking && !d.buffered && later < d.seek_target,
        d.seeking && !d.buffered && later < d.seek_target - 333_333 ==> d.is_early(later),
        later >= d.seek_target - 333_333 ==> !d.is_early(later),
{
}

/// A sample is what its stream is: sound where the stream is the one of the sound, a picture where it
/// is that of the video, and nothing otherwise.
pub proof fn law_streams_tell_samples_apart(d: Decoder, stream: u32)
    ensures
        d.kind_of(stream) is Audio <==> d.audio_index is Some && d.audio_index.unwrap() == stream,
        d.audio_index != Some(d.video_index) ==> d.kind_of(d.video_index) is Video,
        stream != d.video_index ==> !(d.kind_of(stream) is Video),
        d.audio_index is None && stream != d.video_index ==> d.kind_of(stream) is Other,
{
}

/// Samples can be taken wherever their time stamps lie, as long as they are no further from the first
/// than the nanoseconds between them can be counted, and neither the first nor the target of a seek is
/// at the very bottom of the range.
pub proof fn law_ordinary_samples_can_be_taken(d: Decoder, timestamp: i64)
    requires
        d.seek_target >= i64::MIN + 333_333,
        timestamp >= i64::MIN + 50_000_000,
        d.pts_start matches Some(start) ==> start >= i64::MIN + 50_000_000 && timestamp - start
            <= 184_467_440_737_095_516,
    ensures
        d.sample_fits(timestamp),
{
}

/// The first picture sets where the time stamps begin, if nothing did; nothing else changes. The
/// position goes to the picture only where that is further on, and stays at the target during a seek.
pub proof fn law_first_picture_sets_the_start(d: Decoder, timestamp: i64, position: i64)
    ensures
        d.pts_start is None ==> d.pictured(timestamp).pts_start == Some(timestamp),
        d.pts_start is Some ==> d.pictured(timestamp) == d,
        d.pictured(timestamp) == (Decoder { pts_start: d.pictured(timestamp).pts_start, ..d }),
        d.seeking ==> d.pictured_position(timestamp, position) == d.seek_target,
        !d.seeking && timestamp >= position ==> d.pictured_position(timestamp, position)
            == timestamp,
        !d.seeking && timestamp <= position ==> d.pictured_position(timestamp, position) == position,
{
}

/// A command shows in the state of the player where it is to play or to pause, and nowhere else.
/// Stopping ends the loop, pausing drops the sound that waits, and the volume and the muting are
/// handed on as they were given.
pub proof fn law_commands_are_handed_on(player: Player, cmd: Cmd)
    ensures
        Decoder::player_commanded(player, cmd) == (Player {
            state: Decoder::player_commanded(player, cmd).state,
            ..player
        }),
        cmd is Play ==> Decoder::player_commanded(player, cmd).state == 1,
        cmd is Pause ==> Decoder::player_commanded(player, cmd).state == 2,
        !(cmd is Play || cmd is Pause) ==> Decoder::player_commanded(player, cmd) == player,
        Decoder::step_for(cmd) is Exit <==> cmd is Stop,
        Decoder::step_for(cmd) is FlushAudio <==> cmd is Pause,
        cmd matches Cmd::SetVolume(volume) ==> Decoder::step_for(cmd) == CommandStep::SetVolume(
            volume,
        ),
        cmd matches Cmd::SetMute(mute) ==> Decoder::step_for(cmd) == CommandStep::SetMute(mute),
        cmd is Play || cmd is Seek ==> Decoder::step_for(cmd) is Nothing,
{
}

/// Samples are read exactly while it plays, and the loop ends exactly where the player was stopped.
pub proof fn law_loop_reads_while_it_plays(d: Decoder, player: Player)
    ensures
        d.loop_step(player) is Exit <==> player.state == 3,
        d.loop_step(player) is Read <==> player.state != 3 && d.playing,
        d.loop_step(player) is Idle <==> player.state != 3 && !d.playing,
{
}

} // verus!
