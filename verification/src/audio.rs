//! Sound: its format, the queue of bytes on their way to the device, and the pump that keeps a
//! separate audio rendition in step with the video.
use vstd::prelude::*;
use vstd::slice::slice_subrange;
use vstd::slice::slice_to_vec;

use crate::player::{state_of_number, Player, PlayerState};
use crate::source;
use crate::source::is_last;

verus! {

// ---------------------------------------------------------------------------------------------
// The format
// ---------------------------------------------------------------------------------------------

/// The format of the sound that a device mixes.
#[derive(Clone, Copy, Debug, PartialEq, Eq, Structural)]
pub struct AudioFormat {
    /// The samples are floating-point numbers.
    pub is_float: bool,
    pub bits_per_sample: u32,
    pub channels: u32,
    pub samples_per_second: u32,
    /// How many bytes a sample of all channels takes.
    pub block_align: u32,
    pub bytes_per_second: u32,
}

/// How many bytes a sample of all channels takes.
pub open spec fn block_bytes(channels: u16, bits: u16) -> int {
    channels * bits / 8
}

/// The sizes of a format are machine integers.
pub open spec fn format_fits(rate: u32, channels: u16, bits: u16) -> bool {
    channels * bits <= u16::MAX && rate * block_bytes(channels, bits) <= u32::MAX
}

/// Whether the sizes of a format are machine integers.
pub fn has_format(rate: u32, channels: u16, bits: u16) -> (r: bool)
    ensures
        r == format_fits(rate, channels, bits),
{
    assert(0 <= channels * bits <= 0xffff * 0xffff) by (nonlinear_arith)
        requires
            0 <= channels <= 0xffff,
            0 <= bits <= 0xffff,
    ;
    let per_block: u64 = channels as u64 * bits as u64;
    if per_block > u16::MAX as u64 {
        return false;
    }
    let block: u64 = per_block / 8;
    assert(0 <= rate * block <= 0xffff_ffff * 0xffff) by (nonlinear_arith)
        requires
            0 <= rate <= 0xffff_ffff,
            0 <= block <= 0xffff,
    ;
    rate as u64 * block <= u32::MAX as u64
}

/// The format that goes with what a device says of itself: the tag 3 stands for floating-point
/// samples, and the tag of an extended format is taken for that where samples have 32 bits.
pub open spec fn format_of(tag: u16, rate: u32, channels: u16, bits: u16) -> AudioFormat {
    AudioFormat {
        is_float: tag == 3 || (tag == 0xFFFE && bits == 32),
        bits_per_sample: bits as u32,
        channels: channels as u32,
        samples_per_second: rate,
        block_align: block_bytes(channels, bits) as u32,
        bytes_per_second: (rate * block_bytes(channels, bits)) as u32,
    }
}

/// The format that goes with what a device says of itself: the tag 3 stands for floating-point
/// samples, and the tag of an extended format is taken for that where samples have 32 bits.
pub fn audio_format(tag: u16, rate: u32, channels: u16, bits: u16) -> (r: AudioFormat)
    requires
        format_fits(rate, channels, bits),
    ensures
        r == format_of(tag, rate, channels, bits),
{
    let is_float: bool = tag == 3 || (tag == 0xFFFE && bits == 32);
    let block_align: u16 = channels * bits / 8;
    AudioFormat {
        is_float,
        bits_per_sample: bits as u32,
        channels: channels as u32,
        samples_per_second: rate,
        block_align: block_align as u32,
        bytes_per_second: rate * block_align as u32,
    }
}

// ---------------------------------------------------------------------------------------------
// The queue
// ---------------------------------------------------------------------------------------------

/// What is sent to the thread that feeds the device.
pub enum AudioCmd {
    /// Sound to be played.
    Data(Vec<u8>),
    /// What waits to be played is dropped.
    Flush,
}

/// The bytes that wait for the device.
pub struct AudioQueue {
    pending: Vec<u8>,
}

impl View for AudioQueue {
    type V = Seq<u8>;

    closed spec fn view(&self) -> Seq<u8> {
        self.pending@
    }
}

impl AudioQueue {
    /// The queue after a command.
    pub open spec fn after(queue: Seq<u8>, cmd: AudioCmd) -> Seq<u8> {
        match cmd {
            AudioCmd::Data(bytes) => queue + bytes@,
            AudioCmd::Flush => Seq::empty(),
        }
    }

    /// How many frames can be handed over: no more than the device has room for, and only whole
    /// ones.
    pub open spec fn ready(queue: Seq<u8>, room: int, bytes_per_frame: int) -> int {
        let whole = if bytes_per_frame > 0 {
            queue.len() as int / bytes_per_frame
        } else {
            0
        };
        if room < whole {
            room
        } else {
            whole
        }
    }

    /// An empty queue.
    pub fn new() -> (r: AudioQueue)
        ensures
            r@ == Seq::<u8>::empty(),
    {
        AudioQueue { pending: Vec::new() }
    }

    /// Takes a command. The result says whether the device has to begin anew.
    pub fn receive(&mut self, cmd: AudioCmd) -> (r: bool)
        ensures
            final(self)@ == AudioQueue::after(old(self)@, cmd),
            r == (cmd is Flush),
    {
        match cmd {
            AudioCmd::Data(bytes) => {
                let mut more: Vec<u8> = bytes;
                self.pending.append(&mut more);
                false
            },
            AudioCmd::Flush => {
                self.pending = Vec::new();
                true
            },
        }
    }

    /// How many frames to hand over to a device that holds `buffer_frames` frames, `padding` of
    /// which have not been played.
    pub fn frames_to_write(&self, buffer_frames: u32, padding: u32, bytes_per_frame: usize) -> (r:
        u32)
        requires
            padding <= buffer_frames,
        ensures
            r == AudioQueue::ready(self@, buffer_frames - padding, bytes_per_frame as int),
            r * bytes_per_frame <= self@.len(),
    {
        let room: u32 = buffer_frames - padding;
        let whole: usize = if bytes_per_frame > 0 {
            self.pending.len() / bytes_per_frame
        } else {
            0
        };
        let r: u32 = if (room as usize) < whole {
            room
        } else {
            whole as u32
        };
        proof {
            let len = self.pending@.len() as int;
            let per = bytes_per_frame as int;
            if per > 0 {
                assert(r * per <= len) by (nonlinear_arith)
                    requires
                        per > 0,
                        r <= whole,
                        whole == len / per,
                        len >= 0,
                ;
            }
        }
        r
    }

    /// The bytes of the frames that are handed over.
    pub fn head(&self, frames: u32, bytes_per_frame: usize) -> (r: &[u8])
        requires
            frames * bytes_per_frame <= self@.len(),
        ensures
            r@ == self@.take(frames * bytes_per_frame),
    {
        let n: usize = self.pending.len();
        assert(n == self@.len());
        let bytes: usize = frames as usize * bytes_per_frame;
        slice_subrange(self.pending.as_slice(), 0, bytes)
    }

    /// Takes the frames that were handed over out of the queue.
    pub fn wrote(&mut self, frames: u32, bytes_per_frame: usize)
        requires
            frames * bytes_per_frame <= old(self)@.len(),
        ensures
            final(self)@ == old(self)@.skip(frames * bytes_per_frame),
    {
        let n: usize = self.pending.len();
        assert(n == self@.len());
        let bytes: usize = frames as usize * bytes_per_frame;
        let rest: Vec<u8> = slice_to_vec(slice_subrange(self.pending.as_slice(), bytes, n));
        self.pending = rest;
        assert(self@ =~= old(self)@.skip(frames * bytes_per_frame));
    }
}

/// Sound is played in the order in which it came, all of it and nothing else: what was played and
/// what waits are always what came.
pub proof fn law_sound_keeps_its_order(
    played: Seq<u8>,
    queue: Seq<u8>,
    bytes: Vec<u8>,
    handed_over: int,
)
    requires
        0 <= handed_over <= queue.len(),
    ensures
        played + AudioQueue::after(queue, AudioCmd::Data(bytes)) == (played + queue) + bytes@,
        (played + queue.take(handed_over)) + queue.skip(handed_over) == played + queue,
{
    assert(played + AudioQueue::after(queue, AudioCmd::Data(bytes)) =~= (played + queue) + bytes@);
    assert((played + queue.take(handed_over)) + queue.skip(handed_over) =~= played + queue);
}

/// The queue after a row of commands.
pub open spec fn after_all(queue: Seq<u8>, cmds: Seq<AudioCmd>) -> Seq<u8>
    decreases cmds.len(),
{
    if cmds.len() == 0 {
        queue
    } else {
        AudioQueue::after(after_all(queue, cmds.drop_last()), cmds.last())
    }
}

/// The sound that a row of commands brings, one piece behind the other.
pub open spec fn sound_of(cmds: Seq<AudioCmd>) -> Seq<u8>
    decreases cmds.len(),
{
    if cmds.len() == 0 {
        Seq::empty()
    } else {
        match cmds.last() {
            AudioCmd::Data(bytes) => sound_of(cmds.drop_last()) + bytes@,
            AudioCmd::Flush => sound_of(cmds.drop_last()),
        }
    }
}

/// Without a flush all sound that came waits behind what was there, in the order in which it came.
pub proof fn law_sound_waits_in_a_row(queue: Seq<u8>, cmds: Seq<AudioCmd>)
    requires
        forall|i: int| 0 <= i < cmds.len() ==> cmds[i] is Data,
    ensures
        after_all(queue, cmds) == queue + sound_of(cmds),
    decreases cmds.len(),
{
    if cmds.len() == 0 {
        assert(queue + Seq::<u8>::empty() =~= queue);
    } else {
        law_sound_waits_in_a_row(queue, cmds.drop_last());
        assert(cmds.last() is Data);
        assert(after_all(queue, cmds) =~= queue + sound_of(cmds));
    }
}

/// After a flush only what comes behind it is played, whatever came before.
pub proof fn law_flush_forgets(queue: Seq<u8>, before: Seq<AudioCmd>, behind: Seq<AudioCmd>)
    ensures
        after_all(queue, before.push(AudioCmd::Flush) + behind) == after_all(Seq::empty(), behind),
    decreases behind.len(),
{
    let flushed = before.push(AudioCmd::Flush);
    if behind.len() == 0 {
        assert(flushed + behind =~= flushed);
        assert(flushed.drop_last() =~= before);
    } else {
        law_flush_forgets(queue, before, behind.drop_last());
        assert((flushed + behind).drop_last() =~= flushed + behind.drop_last());
    }
}

/// A device with enough room leaves less than one frame in the queue.
pub proof fn law_no_whole_frame_is_left(queue: Seq<u8>, room: int, bytes_per_frame: int)
    requires
        bytes_per_frame > 0,
        room * bytes_per_frame >= queue.len(),
    ensures
        queue.len() - AudioQueue::ready(queue, room, bytes_per_frame) * bytes_per_frame
            < bytes_per_frame,
{
    let len = queue.len() as int;
    let whole = len / bytes_per_frame;
    assert(whole * bytes_per_frame <= len < (whole + 1) * bytes_per_frame) by (nonlinear_arith)
        requires
            bytes_per_frame > 0,
            len >= 0,
            whole == len / bytes_per_frame,
    ;
    assert((whole + 1) * bytes_per_frame == whole * bytes_per_frame + bytes_per_frame)
        by (nonlinear_arith);
    if room < whole {
        assert(room * bytes_per_frame < whole * bytes_per_frame) by (nonlinear_arith)
            requires
                room < whole,
                bytes_per_frame > 0,
        ;
    }
}

// ---------------------------------------------------------------------------------------------
// The pump
// ---------------------------------------------------------------------------------------------

/// How far separate sound may run ahead of the video: 50 ms.
pub const AHEAD_LIMIT: i64 = 500_000;

/// How far separate sound may lie behind the video before it is dropped: 500 ms.
pub const BEHIND_LIMIT: i64 = 5_000_000;

/// How long separate sound is held back at most, in milliseconds.
pub const LONGEST_HOLD_MS: u32 = 2_000;

/// What separate sound remembers of the player.
#[derive(Clone, Copy, Debug, PartialEq, Eq, Structural)]
pub struct AudioPump {
    /// The last seek that was followed.
    pub last_seek_id: i64,
    /// The player was playing.
    pub was_playing: bool,
}

/// What to do in a turn.
#[derive(Clone, Copy, Debug, PartialEq, Eq, Structural)]
pub struct PumpTurn {
    /// Go to this position, and drop the sound that waits to be played.
    pub seek_to: Option<i64>,
    /// Drop the sound that waits to be played, for the player has paused.
    pub flush: bool,
    /// Read a sample.
    pub read: bool,
}

/// What to do about what the reader gave.
#[derive(Clone, Copy, Debug, PartialEq, Eq, Structural)]
pub enum PumpSample {
    /// There is no more sound.
    Exit,
    /// There is nothing to send.
    Again,
    /// The sample is held back first.
    Hold,
    Send,
}

/// The distance of two positions is a machine integer.
pub open spec fn distance_fits(timestamp: i64, position: i64) -> bool {
    i64::MIN <= timestamp - position <= i64::MAX
}

/// Whether the distance of two positions is a machine integer.
pub fn has_distance(timestamp: i64, position: i64) -> (r: bool)
    ensures
        r == distance_fits(timestamp, position),
{
    let d: i128 = timestamp as i128 - position as i128;
    i64::MIN as i128 <= d && d <= i64::MAX as i128
}

/// The player was stopped, or has failed.
pub open spec fn has_stopped(player: Player) -> bool {
    state_of_number(player.state) == PlayerState::Stopped || state_of_number(player.state)
        == PlayerState::Error
}

/// What to do about a sample, given whether it is the last, whether there is one at all, its time
/// stamp and the position of the video.
pub open spec fn sample_step(last: bool, present: bool, timestamp: int, position: int) -> PumpSample {
    if last {
        PumpSample::Exit
    } else if !present {
        PumpSample::Again
    } else if timestamp - position > AHEAD_LIMIT {
        PumpSample::Hold
    } else if timestamp - position < -BEHIND_LIMIT {
        PumpSample::Again
    } else {
        PumpSample::Send
    }
}

impl AudioPump {
    /// What to do in a turn, while the player has not stopped.
    pub open spec fn turn(self, player: Player) -> PumpTurn {
        let plays = state_of_number(player.state) == PlayerState::Playing;
        PumpTurn {
            seek_to: if player.seek_id != self.last_seek_id {
                Some(player.position_100ns)
            } else {
                None
            },
            flush: self.was_playing && !plays,
            read: plays,
        }
    }

    /// A sample that was held back for so many milliseconds is held back further.
    pub open spec fn is_held(self, player: Player, timestamp: int, waited_ms: u32) -> bool {
        &&& waited_ms < LONGEST_HOLD_MS
        &&& timestamp - player.position_100ns > AHEAD_LIMIT
        &&& !has_stopped(player)
        &&& player.seek_id == self.last_seek_id
    }

    /// What is remembered after a turn.
    pub open spec fn turned(self, player: Player) -> AudioPump {
        AudioPump {
            last_seek_id: player.seek_id,
            was_playing: state_of_number(player.state) == PlayerState::Playing,
        }
    }

    /// The pump as it starts.
    pub fn new() -> (r: AudioPump)
        ensures
            r == (AudioPump { last_seek_id: 0, was_playing: false }),
    {
        AudioPump { last_seek_id: 0, was_playing: false }
    }

    /// What to do next; nothing more, once the player has stopped.
    pub fn poll(&mut self, player: &Player) -> (r: Option<PumpTurn>)
        ensures
            has_stopped(*player) ==> r is None && *final(self) == *old(self),
            !has_stopped(*player) ==> r == Some(old(self).turn(*player)) && *final(self)
                == old(self).turned(*player),
    {
        let state: PlayerState = player.state();
        if state == PlayerState::Stopped || state == PlayerState::Error {
            return None;
        }
        let plays: bool = state == PlayerState::Playing;
        let mut seek_to: Option<i64> = None;
        if player.seek_id != self.last_seek_id {
            seek_to = Some(player.position_100ns);
            self.last_seek_id = player.seek_id;
        }
        let flush: bool = self.was_playing && !plays;
        self.was_playing = plays;
        Some(PumpTurn { seek_to, flush, read: plays })
    }

    /// Takes what the reader gave: flags, which say whether anything more will come, the time stamp,
    /// and whether there is a sample at all. Sound that lies too far behind is dropped.
    pub fn on_sample(&self, player: &Player, flags: u32, timestamp: i64, present: bool) -> (r:
        PumpSample)
        requires
            !is_last(flags) && present ==> distance_fits(timestamp, player.position_100ns),
        ensures
            r == sample_step(
                is_last(flags),
                present,
                timestamp as int,
                player.position_100ns as int,
            ),
    {
        if source::nothing_more(flags) {
            return PumpSample::Exit;
        }
        if !present {
            return PumpSample::Again;
        }
        let ahead: i64 = timestamp - player.position_100ns;
        if ahead > AHEAD_LIMIT {
            PumpSample::Hold
        } else if ahead < -BEHIND_LIMIT {
            PumpSample::Again
        } else {
            PumpSample::Send
        }
    }

    /// Whether a sample that was held back for so many milliseconds is held back further: until the
    /// video has caught up, the player has stopped or a seek has begun, or for two seconds.
    pub fn holds(&self, player: &Player, timestamp: i64, waited_ms: u32) -> (r: bool)
        requires
            waited_ms < LONGEST_HOLD_MS ==> distance_fits(timestamp, player.position_100ns),
        ensures
            r == self.is_held(*player, timestamp as int, waited_ms),
    {
        if waited_ms >= LONGEST_HOLD_MS {
            return false;
        }
        if timestamp - player.position_100ns <= AHEAD_LIMIT {
            return false;
        }
        let state: PlayerState = player.state();
        if state == PlayerState::Stopped || state == PlayerState::Error {
            return false;
        }
        player.seek_id == self.last_seek_id
    }
}

/// The pump after so many turns during which the player does not change.
pub open spec fn after_turns(p: AudioPump, player: Player, n: nat) -> AudioPump
    decreases n,
{
    if n == 0 {
        p
    } else {
        after_turns(p, player, (n - 1) as nat).turned(player)
    }
}

/// A seek is followed once, and a pause drops sound once: after the first turn, nothing of the kind
/// is done before the player changes.
pub proof fn law_pump_acts_once(p: AudioPump, player: Player, n: nat)
    requires
        n > 0,
    ensures
        after_turns(p, player, n).turn(player).seek_to is None,
        !after_turns(p, player, n).turn(player).flush,
        after_turns(p, player, n) == p.turned(player),
    decreases n,
{
    if n > 1 {
        law_pump_acts_once(p, player, (n - 1) as nat);
    } else {
        assert(after_turns(p, player, 0) == p);
    }
}

/// A format says of its sound what was read: the block takes the whole bytes of all channels, a
/// second as many blocks as samples. The samples are floating-point numbers where the tag says so, or
/// where an extended format has 32 bits a sample, and otherwise not.
pub proof fn law_format_adds_up(tag: u16, rate: u32, channels: u16, bits: u16)
    requires
        format_fits(rate, channels, bits),
    ensures
        ({
            let f = format_of(tag, rate, channels, bits);
            &&& f.samples_per_second == rate && f.channels == channels && f.bits_per_sample == bits
            &&& f.bytes_per_second == f.samples_per_second * f.block_align
            &&& f.block_align * 8 <= channels * bits < f.block_align * 8 + 8
            &&& tag == 3 ==> f.is_float
            &&& tag == 0xFFFE ==> f.is_float == (bits == 32)
            &&& tag != 3 && tag != 0xFFFE ==> !f.is_float
        }),
{
    let block = block_bytes(channels, bits);
    assert(channels * bits >= 0) by (nonlinear_arith);
    assert(rate * block >= 0) by (nonlinear_arith)
        requires
            rate >= 0,
            block >= 0,
    ;
}

/// A format is taken exactly where the bits of a block and the bytes of a second fit.
pub proof fn law_formats_fit_where_their_sizes_do(rate: u32, channels: u16, bits: u16, block: int)
    requires
        block * 8 <= channels * bits < block * 8 + 8,
    ensures
        format_fits(rate, channels, bits) <==> channels * bits <= 65_535 && rate * block
            <= 4_294_967_295,
{
}

/// Two positions have a distance exactly where it is one of a machine integer.
pub proof fn law_near_positions_have_a_distance(timestamp: i64, position: i64, distance: i64)
    ensures
        timestamp - position == distance ==> distance_fits(timestamp, position),
        distance_fits(timestamp, position) ==> -0x8000_0000_0000_0000 <= timestamp - position
            <= 0x7fff_ffff_ffff_ffff,
{
}

/// The device gets as many frames as it has room for and as are whole, and no fewer.
pub proof fn law_device_gets_all_it_can(queue: Seq<u8>, room: int, bytes_per_frame: int)
    requires
        0 <= room,
        0 <= bytes_per_frame,
    ensures
        ({
            let n = AudioQueue::ready(queue, room, bytes_per_frame);
            &&& 0 <= n <= room
            &&& n * bytes_per_frame <= queue.len()
            &&& bytes_per_frame > 0 && n < room ==> (n + 1) * bytes_per_frame > queue.len()
            &&& bytes_per_frame == 0 ==> n == 0
        }),
{
    let n = AudioQueue::ready(queue, room, bytes_per_frame);
    if bytes_per_frame > 0 {
        let len = queue.len() as int;
        let whole = len / bytes_per_frame;
        assert(whole * bytes_per_frame <= len < (whole + 1) * bytes_per_frame && whole >= 0)
            by (nonlinear_arith)
            requires
                whole == len / bytes_per_frame,
                bytes_per_frame > 0,
                len >= 0,
        ;
        assert(n * bytes_per_frame <= whole * bytes_per_frame) by (nonlinear_arith)
            requires
                n <= whole,
                bytes_per_frame > 0,
        ;
    }
}

/// Sound that comes stands behind what waits, every byte of it, and a flush leaves nothing.
pub proof fn law_queue_takes_every_byte(queue: Seq<u8>, bytes: Vec<u8>)
    ensures
        AudioQueue::after(queue, AudioCmd::Data(bytes)).len() == queue.len() + bytes@.len(),
        queue.is_prefix_of(AudioQueue::after(queue, AudioCmd::Data(bytes))),
        bytes@.is_suffix_of(AudioQueue::after(queue, AudioCmd::Data(bytes))),
        AudioQueue::after(queue, AudioCmd::Flush).len() == 0,
{
    let after = AudioQueue::after(queue, AudioCmd::Data(bytes));
    assert(after.subrange(0, queue.len() as int) =~= queue);
    assert(after.subrange(after.len() - bytes@.len(), after.len() as int) =~= bytes@);
}

/// What becomes of a sample depends on how far it is from the position of the video, and on nothing
/// else: up to a twentieth of a second ahead and half a second behind it is sent, further ahead it is
/// held back, and further behind it is dropped. The end comes first, whatever else was read.
pub proof fn law_sound_keeps_to_the_video(
    present: bool,
    timestamp: int,
    position: int,
    moved: int,
)
    ensures
        sample_step(true, present, timestamp, position) == PumpSample::Exit,
        sample_step(false, false, timestamp, position) == PumpSample::Again,
        sample_step(false, true, timestamp, position) == sample_step(
            false,
            true,
            timestamp + moved,
            position + moved,
        ),
        sample_step(false, true, timestamp, position) == PumpSample::Send <==> position - 5_000_000
            <= timestamp <= position + 500_000,
        sample_step(false, true, timestamp, position) == PumpSample::Hold <==> timestamp > position
            + 500_000,
{
}

/// A sample is held back no longer than until the video has caught up, and no longer than two
/// seconds, nor past a stop, an error or a seek.
pub proof fn law_holding_ends(p: AudioPump, player: Player, timestamp: int, waited_ms: u32)
    ensures
        p.is_held(player, timestamp, waited_ms) ==> sample_step(
            false,
            true,
            timestamp,
            player.position_100ns as int,
        ) == PumpSample::Hold,
        p.is_held(player, timestamp, waited_ms) ==> waited_ms < 2_000 && player.state != 3
            && player.state != 5 && player.seek_id == p.last_seek_id,
        timestamp > player.position_100ns + 500_000 && waited_ms < 2_000 && player.state != 3
            && player.state != 5 && player.seek_id == p.last_seek_id ==> p.is_held(
            player,
            timestamp,
            waited_ms,
        ),
{
}

/// The pump follows the player: it seeks where another seek was begun, to the player's position, it
/// drops what waits when playing stops, it reads while the player plays, and it ends when the player
/// has stopped or failed. What it remembers is the player's seek and whether it plays.
pub proof fn law_pump_follows_the_player(p: AudioPump, player: Player)
    ensures
        p.turn(player).seek_to is Some <==> player.seek_id != p.last_seek_id,
        p.turn(player).seek_to matches Some(to) ==> to == player.position_100ns,
        p.turn(player).flush <==> p.was_playing && player.state != 1,
        p.turn(player).read <==> player.state == 1,
        p.turned(player).last_seek_id == player.seek_id,
        p.turned(player).was_playing == p.turn(player).read,
        has_stopped(player) <==> player.state == 3 || player.state == 5,
{
}

} // verus!
