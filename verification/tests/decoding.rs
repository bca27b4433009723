use snek_apollo::decode::{CommandStep, Decoder, LoopStep, SampleKind, SampleStep};
use snek_apollo::display::{window_of, Display, PictureStep};
use snek_apollo::player::awaits_seek;
use snek_apollo::{Cmd, MediaInfo, Player, PlayerState};

fn file() -> Decoder {
    Decoder::new(false, false, 1, Some(0), 0)
}

const MS: u64 = 1_000_000;

#[test]
fn clock_rests_while_paused() {
    let mut p = Player::new();
    let mut d = file();
    assert_eq!(d.command(&mut p, Cmd::Play, 100 * MS), CommandStep::Nothing);
    assert_eq!(p.state(), PlayerState::Playing);
    assert_eq!(d.clock_start, Some(100 * MS));
    assert_eq!(d.command(&mut p, Cmd::Pause, 130 * MS), CommandStep::FlushAudio);
    assert_eq!(p.state(), PlayerState::Paused);
    assert_eq!(d.elapsed_at_pause, 30 * MS);
    d.command(&mut p, Cmd::Play, 500 * MS);
    assert_eq!(d.clock_start, Some(470 * MS));
    d.command(&mut p, Cmd::Play, 600 * MS);
    assert_eq!(d.clock_start, Some(470 * MS));
}

#[test]
fn commands_for_the_sound_are_passed_on() {
    let mut p = Player::new();
    let mut d = file();
    assert_eq!(d.command(&mut p, Cmd::SetVolume(9), 0), CommandStep::SetVolume(9));
    assert_eq!(d.command(&mut p, Cmd::SetMute(true), 0), CommandStep::SetMute(true));
    assert_eq!(d.command(&mut p, Cmd::Stop, 0), CommandStep::Exit);
    assert_eq!(d, file());
    assert_eq!(p.state(), PlayerState::Idle);
}

#[test]
fn only_the_last_seek_is_made() {
    let mut p = Player::new();
    let mut d = file();
    d.command(&mut p, Cmd::Seek(1000), 0);
    d.command(&mut p, Cmd::Seek(2000), 0);
    let s = d.begin_seek(&mut p).unwrap();
    assert_eq!((s.id, s.request_ms, s.reader_position), (1, None, 20_000_000));
    assert_eq!((p.seek_id, p.seek_done_id, p.position_ms()), (1, 0, 2000));
    assert!(d.finish_seek(&mut p, s, true));
    assert_eq!(p.seek_done_id, 1);
    assert!(d.begin_seek(&mut p).is_none());
    assert_eq!(p.seek_id, 1);
}

#[test]
fn seek_in_an_hls_buffer_begins_anew() {
    let mut p = Player::new();
    let mut d = Decoder::new(true, true, 0, None, 0);
    d.command(&mut p, Cmd::Seek(3000), 0);
    let s = d.begin_seek(&mut p).unwrap();
    assert_eq!((s.request_ms, s.reader_position), (Some(3000), 0));
    assert_eq!(d.pts_offset, 30_000_000);
    assert!(!d.finish_seek(&mut p, s, false));
    let mut d = Decoder::new(true, false, 0, None, 0);
    d.command(&mut p, Cmd::Seek(3000), 0);
    let s = d.begin_seek(&mut p).unwrap();
    assert_eq!((s.id, s.request_ms, s.reader_position), (2, None, 30_000_000));
    assert_eq!(d.pts_offset, 0);
}

#[test]
fn seek_in_a_file_lands_near_its_target() {
    let mut p = Player::new();
    let mut d = file();
    d.command(&mut p, Cmd::Play, 0);
    d.command(&mut p, Cmd::Seek(1000), 0);
    d.begin_seek(&mut p);
    assert!(d.can_take(0));
    assert_eq!(d.on_sample(&mut p, 1, 0, 9_666_666, true, 5), SampleStep::Again);
    assert!(d.seeking);
    assert_eq!(
        d.on_sample(&mut p, 1, 0, 9_666_667, true, 5),
        SampleStep::Deliver(0, SampleKind::Video)
    );
    assert!(!d.seeking);
    assert_eq!(p.position_100ns, 9_666_667);
    assert_eq!(d.clock_start, Some(5));
}

#[test]
fn seek_in_a_buffer_lands_on_the_first_sample() {
    let mut p = Player::new();
    let mut d = Decoder::new(true, true, 0, None, 0);
    d.command(&mut p, Cmd::Seek(1000), 0);
    d.begin_seek(&mut p);
    assert_eq!(
        d.on_sample(&mut p, 0, 0, 40, true, 5),
        SampleStep::Deliver(0, SampleKind::Video)
    );
    assert_eq!(p.position_100ns, 10_000_000);
    assert_eq!(d.pts_start, Some(40));
}

#[test]
fn sample_is_held_until_it_is_due() {
    let mut p = Player::new();
    let mut d = file();
    d.command(&mut p, Cmd::Play, 0);
    assert_eq!(d.on_sample(&mut p, 1, 0, 0, true, 0), SampleStep::Deliver(0, SampleKind::Video));
    assert_eq!(d.on_picture(&mut p, 0), 0);
    assert_eq!(d.pts_start, Some(0));
    assert_eq!(
        d.on_sample(&mut p, 1, 0, 400_000, true, 10 * MS),
        SampleStep::Deliver(30 * MS, SampleKind::Video)
    );
    assert_eq!(
        d.on_sample(&mut p, 0, 0, 400_000, true, 60 * MS),
        SampleStep::Deliver(0, SampleKind::Audio)
    );
    assert_eq!(
        d.on_sample(&mut p, 9, 0, 20_000_000, true, 0),
        SampleStep::Deliver(0, SampleKind::Other)
    );
    assert_eq!(
        d.on_sample(&mut p, 9, 0, 19_999_999, true, 0),
        SampleStep::Deliver(1_999_999_900, SampleKind::Other)
    );
}

#[test]
fn far_jump_back_is_a_new_beginning() {
    let mut p = Player::new();
    let mut d = file();
    d.command(&mut p, Cmd::Play, 0);
    d.on_picture(&mut p, 100_000_000);
    d.on_sample(&mut p, 1, 0, 50_000_000, true, 0);
    assert_eq!(d.pts_start, Some(100_000_000));
    d.on_sample(&mut p, 1, 0, 49_999_999, true, 0);
    assert_eq!(d.pts_start, Some(49_999_999));
}

#[test]
fn pictures_only_move_the_position_forward() {
    let mut p = Player::new();
    let mut d = file();
    assert_eq!(d.on_picture(&mut p, 123_456), 12);
    assert_eq!(p.position_100ns, 123_456);
    assert_eq!(d.on_picture(&mut p, 23_456), 2);
    assert_eq!(p.position_100ns, 123_456);
}

#[test]
fn end_of_the_streams() {
    let mut p = Player::new();
    let mut d = file();
    d.seeking = true;
    assert_eq!(d.on_sample(&mut p, 0, 2, 0, false, 0), SampleStep::Again);
    assert!(!d.seeking);
    assert_eq!(p.state(), PlayerState::Idle);
    assert_eq!(d.on_sample(&mut p, 0, 4, 0, false, 0), SampleStep::Again);
    assert_eq!(d.on_sample(&mut p, 0, 2, 0, false, 0), SampleStep::Exit);
    assert_eq!(p.state(), PlayerState::EndOfStream);
}

#[test]
fn lowest_flag_is_an_end_too() {
    let mut p = Player::new();
    let mut d = file();
    d.seeking = true;
    assert_eq!(d.on_sample(&mut p, 0, 1, 0, true, 0), SampleStep::Again);
    assert!(!d.seeking);
    assert_eq!(p.state(), PlayerState::Idle);
    assert_eq!(d.on_sample(&mut p, 0, 1, 0, true, 0), SampleStep::Exit);
    assert_eq!(p.state(), PlayerState::EndOfStream);
}

#[test]
fn failed_read_is_an_error() {
    let mut p = Player::new();
    file().read_failed(&mut p);
    assert_eq!(p.state(), PlayerState::Error);
}

#[test]
fn seek_in_a_buffered_file_lands_on_its_sample() {
    let mut p = Player::new();
    let mut d = Decoder::new(true, false, 0, None, 0);
    d.command(&mut p, Cmd::Seek(3000), 0);
    d.begin_seek(&mut p);
    assert_eq!(p.position_100ns, 30_000_000);
    assert_eq!(
        d.on_sample(&mut p, 0, 0, 29_000_000, true, 5),
        SampleStep::Deliver(0, SampleKind::Video)
    );
    assert_eq!(p.position_100ns, 29_000_000);
}

#[test]
fn loop_reads_only_while_playing() {
    let mut p = Player::new();
    let mut d = file();
    assert_eq!(d.next_step(&p), LoopStep::Idle);
    d.command(&mut p, Cmd::Play, 0);
    assert_eq!(d.next_step(&p), LoopStep::Read);
    p.stop();
    assert_eq!(d.next_step(&p), LoopStep::Exit);
}

#[test]
fn times_that_do_not_fit_are_seen() {
    let mut d = file();
    assert!(d.can_take(i64::MAX));
    d.pts_start = Some(0);
    assert!(d.can_take(i64::MAX));
    d.clock_start = Some(0);
    assert!(!d.can_take(i64::MAX));
    assert!(d.can_take(184_467_440_737_095_516));
    assert!(!d.can_take(184_467_440_737_095_517));
    d.pts_start = Some(i64::MIN);
    assert!(!d.can_take(0));
    d.seeking = true;
    d.seek_target = i64::MIN;
    assert!(!d.can_take(0));
}

#[test]
fn position_does_not_flicker_during_a_seek() {
    let mut p = Player::new();
    p.open("/tmp/v.mp4", 0, None);
    let info = MediaInfo { width: 2, height: 2, duration_ms: 9000, has_audio: false };
    p.opened(Ok(info)).unwrap();
    let mut d = file();
    let before = p.seek_id;
    let cmd = p.seek_ms(4321).unwrap();
    assert_eq!(p.position_ms(), 4321);
    assert!(awaits_seek(0, before, p.seek_done_id));
    d.command(&mut p, cmd, 0);
    assert_eq!(p.position_ms(), 4321);
    let step = d.begin_seek(&mut p).unwrap();
    assert_eq!(p.position_ms(), 4321);
    d.finish_seek(&mut p, step, true);
    assert_eq!(p.position_ms(), 4321);
    assert!(!awaits_seek(0, before, p.seek_done_id));
}

#[test]
fn pictures_go_into_the_window_or_are_sent() {
    assert_eq!(window_of(Some(7)), Some(7));
    assert_eq!(window_of(Some(0)), None);
    assert_eq!(window_of(None), None);
    assert_eq!(Display::new(false).picture_step(), PictureStep::Send);
    let mut d = Display::new(true);
    assert_eq!(d.picture_step(), PictureStep::MakeBitmap);
    assert!(!d.on_bitmap(false));
    assert_eq!(d.picture_step(), PictureStep::MakeBitmap);
    assert!(d.on_bitmap(true));
    d.on_draw(true);
    assert_eq!(d.picture_step(), PictureStep::FillBitmap);
    d.on_draw(false);
    assert_eq!(d, Display::new(false));
    assert_eq!(d.picture_step(), PictureStep::Send);
}
