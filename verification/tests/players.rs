use snek_apollo::player::{awaits_seek, stop_wait, StopWait};
use snek_apollo::units::{
    format_duration, has_ticks, ms_of_ticks, stamp_ms, ticks_of_ms, to_signed, to_unsigned,
};
use snek_apollo::{Cmd, MediaInfo, Player, PlayerState, SnekMediaInfo, VideoFrame};

fn info() -> MediaInfo {
    MediaInfo { width: 640, height: 360, duration_ms: 90_000, has_audio: true }
}

fn opened() -> Player {
    let mut p = Player::new();
    p.open("https://h/v.m3u8", 1500, None);
    assert_eq!(p.opened(Ok(info())), Ok(info()));
    p
}

#[test]
fn state_survives_its_number() {
    for s in [
        PlayerState::Idle,
        PlayerState::Playing,
        PlayerState::Paused,
        PlayerState::Stopped,
        PlayerState::EndOfStream,
        PlayerState::Error,
    ] {
        assert_eq!(PlayerState::from(s.as_u8()), s);
    }
    assert_eq!(PlayerState::Error.as_u8(), 5);
    assert_eq!(PlayerState::from(6), PlayerState::Idle);
    assert_eq!(PlayerState::from(255), PlayerState::Idle);
}

#[test]
fn only_the_end_and_an_error_are_final() {
    assert!(PlayerState::EndOfStream.is_over());
    assert!(PlayerState::Error.is_over());
    assert!(!PlayerState::Stopped.is_over());
    assert!(!PlayerState::Playing.is_over());
}

#[test]
fn new_player_is_idle_and_takes_no_commands() {
    let mut p = Player::new();
    assert_eq!(p.state(), PlayerState::Idle);
    assert_eq!((p.position_ms(), p.duration_ms(), p.width(), p.height()), (0, 0, 0, 0));
    assert_eq!(p.play(), None);
    assert_eq!(p.pause(), None);
    assert_eq!(p.seek_ms(5), None);
    assert_eq!(p.position_ms(), 0);
    assert_eq!(p.set_mute(true), None);
    assert_eq!(p.set_volume(0), None);
    assert_eq!(p.stop(), None);
    assert_eq!(p.state(), PlayerState::Stopped);
}

#[test]
fn opening_waits_at_the_start_position() {
    let mut p = Player::new();
    p.open("https://h/v.m3u8", 1500, Some(7));
    assert_eq!(p.state(), PlayerState::Paused);
    assert_eq!(p.position_100ns, 15_000_000);
    assert_eq!(p.position_ms(), 1500);
    assert_eq!(p.current_url, "https://h/v.m3u8");
    assert!(p.is_hls);
    assert_eq!(p.current_hwnd, Some(7));
    assert_eq!(p.play(), None);
    p.open("/tmp/v.mp4", 0, None);
    assert!(!p.is_hls);
}

#[test]
fn opened_player_knows_its_medium_and_takes_commands() {
    let p = opened();
    assert_eq!((p.width(), p.height(), p.duration_ms()), (640, 360, 90_000));
    assert_eq!(p.play(), Some(Cmd::Play));
    assert_eq!(p.pause(), Some(Cmd::Pause));
    assert_eq!(p.set_mute(true), Some(Cmd::SetMute(true)));
    assert_eq!(p.set_volume(0.5f32.to_bits()), Some(Cmd::SetVolume(0.5f32.to_bits())));
}

#[test]
fn medium_that_cannot_be_opened_leaves_the_player_without_commands() {
    let mut p = Player::new();
    p.open("x", 0, None);
    assert_eq!(p.opened(Err(String::from("No video stream"))), Err(String::from("No video stream")));
    assert_eq!(p.play(), None);
    assert_eq!(p.width(), 0);
}

#[test]
fn seek_target_is_shown_at_once() {
    let mut p = opened();
    assert_eq!(p.seek_ms(42_000), Some(Cmd::Seek(42_000)));
    assert_eq!(p.position_ms(), 42_000);
    assert_eq!(p.position_100ns, 420_000_000);
}

#[test]
fn stopped_player_takes_no_commands() {
    let mut p = opened();
    assert_eq!(p.stop(), Some(Cmd::Stop));
    assert_eq!(p.state(), PlayerState::Stopped);
    assert_eq!(p.stop(), None);
    assert_eq!(p.play(), None);
    assert_eq!(p.seek_ms(1), None);
    assert_eq!(p.width(), 640);
}

#[test]
fn last_frame_is_shown_until_the_next_comes() {
    let mut p = opened();
    assert_eq!(p.show_frame(None), None);
    let first = VideoFrame { width: 2, height: 1, data: vec![1, 2], timestamp_ms: 40 };
    let shown = p.show_frame(Some(first)).unwrap();
    assert_eq!((shown.width, shown.height, shown.data_len, shown.timestamp_ms), (2, 1, 2, 40));
    assert_eq!(p.show_frame(None), Some(shown));
    let second = VideoFrame { width: 2, height: 1, data: vec![3, 4], timestamp_ms: 80 };
    assert_eq!(p.show_frame(Some(second)).unwrap().timestamp_ms, 80);
    assert_eq!(p.last_frame.as_ref().unwrap().data, vec![3, 4]);
}

#[test]
fn foreign_callers_get_what_is_known_of_a_medium() {
    let r = SnekMediaInfo::from(info());
    assert_eq!((r.width, r.height, r.duration_ms, r.has_audio), (640, 360, 90_000, true));
}

#[test]
fn progress_of_the_download_is_a_fraction() {
    let mut p = Player::new();
    assert_eq!(p.get_download_progress().done, 0);
    p.download_progress = 9;
    p.begin_download(4);
    for _ in 0..3 {
        p.segment_done();
    }
    let r = p.get_download_progress();
    assert_eq!((r.done, r.whole), (3, 4));
    p.segment_done();
    let r = p.get_download_progress();
    assert_eq!((r.done, r.whole), (4, 4));
}

#[test]
fn thread_gets_half_a_second_to_stop() {
    assert_eq!(stop_wait(true, u64::MAX), StopWait::Join);
    assert_eq!(stop_wait(false, 500_000_000), StopWait::Wait);
    assert_eq!(stop_wait(false, 500_000_001), StopWait::Abandon);
}

#[test]
fn seek_is_awaited_for_half_a_second() {
    assert!(awaits_seek(499_999_999, 4, 4));
    assert!(!awaits_seek(500_000_000, 4, 4));
    assert!(!awaits_seek(0, 4, 5));
}

#[test]
fn milliseconds_and_ticks() {
    assert_eq!(ticks_of_ms(3), 30_000);
    assert_eq!(ms_of_ticks(39_999), 3);
    assert_eq!(ms_of_ticks(-50_000), 0);
    assert_eq!(ms_of_ticks(ticks_of_ms(123_456)), 123_456);
    assert!(has_ticks(922_337_203_685_477));
    assert!(!has_ticks(922_337_203_685_478));
    assert!(has_ticks(u64::MAX));
    assert_eq!(ticks_of_ms(u64::MAX), -10_000);
    assert_eq!(stamp_ms(25_000), 2);
    assert_eq!(stamp_ms(-25_000), u64::MAX - 1);
    assert_eq!(to_signed(u64::MAX), -1);
    assert_eq!(to_unsigned(-1), u64::MAX);
}

#[test]
fn durations_are_written_for_people() {
    assert_eq!(format_duration(0), "00:00");
    assert_eq!(format_duration(61_999), "01:01");
    assert_eq!(format_duration(3_599_000), "59:59");
    assert_eq!(format_duration(3_600_000), "01:00:00");
    assert_eq!(format_duration(360_000_000 + 62_000), "100:01:02");
}
