use snek_apollo::linux::{
    frame_interval, has_timestamp, take_frame, DecoderStatus, LinuxDecoder, Start,
};
use snek_apollo::probe::{
    audio_probe_args, decoder_args, duration_text, parse_ratio, probe_failure, probe_fields,
    sound_args, video_probe, video_probe_args, with_audio, FrameRate, ProbeError, ProbeField,
    ProbeValue,
};
use snek_apollo::{Cmd, Player, PlayerState};

const VOLUME: u32 = 0x3f80_0000;

#[test]
fn frame_rates() {
    assert!(matches!(parse_ratio("30000/1001\n"), FrameRate::Ratio(30000, 1001)));
    assert!(matches!(parse_ratio(" 25 / 1 "), FrameRate::Ratio(25, 1)));
    assert!(matches!(parse_ratio("+25/1"), FrameRate::Ratio(25, 1)));
    assert!(matches!(parse_ratio("0/1"), FrameRate::Unknown));
    assert!(matches!(parse_ratio("1/0"), FrameRate::Unknown));
    assert!(matches!(parse_ratio("x/1"), FrameRate::Unknown));
    assert!(matches!(parse_ratio("1/2/3"), FrameRate::Unknown));
    assert!(matches!(parse_ratio(" N/A "), FrameRate::Unknown));
    assert!(matches!(parse_ratio("  "), FrameRate::Unknown));
    match parse_ratio(" 23.976 ") {
        FrameRate::Decimal(text) => assert_eq!(text, "23.976"),
        _ => panic!("a decimal number"),
    }
}

#[test]
fn durations_of_media() {
    assert_eq!(duration_text(" 12.5\r"), Some(String::from("12.5")));
    assert_eq!(duration_text("N/A"), None);
    assert_eq!(duration_text(" "), None);
}

#[test]
fn fields_of_an_answer() {
    let f = probe_fields(
        "width=1920\r\n height = 1080 \nnonsense\nr_frame_rate=25/1\nduration=9.5\nwidth=x\ncodec=h\n",
    );
    assert_eq!(f.len(), 5);
    assert!(matches!(f[0], ProbeField::Width(1920)));
    assert!(matches!(f[1], ProbeField::Height(1080)));
    assert!(matches!(&f[2], ProbeField::Rate(v) if v == "25/1"));
    assert!(matches!(&f[3], ProbeField::Duration(v) if v == "9.5"));
    assert!(matches!(f[4], ProbeField::Width(0)));
}

#[test]
fn last_field_of_a_kind_counts() {
    let v = video_probe(&[
        ProbeValue::Width(1),
        ProbeValue::Height(2),
        ProbeValue::Rate(Some((24, 1))),
        ProbeValue::Width(3),
        ProbeValue::Rate(None),
        ProbeValue::Duration(7),
    ])
    .unwrap();
    assert_eq!((v.width, v.height, v.duration_ms, v.fps_num, v.fps_den), (3, 2, 7, 24, 1));
    let v = video_probe(&[ProbeValue::Width(1), ProbeValue::Height(2)]).unwrap();
    assert_eq!((v.fps_num, v.fps_den), (30, 1));
}

#[test]
fn medium_without_dimensions_cannot_be_played() {
    let e = video_probe(&[ProbeValue::Width(1)]).err().unwrap();
    assert_eq!(e, ProbeError::NoDimensions);
    assert_eq!(e.message(), "ffprobe did not return video dimensions");
    assert!(video_probe(&[]).is_err());
    assert_eq!(probe_failure(" no such file\n"), "ffprobe failed: no such file");
}

#[test]
fn audio_is_there_where_the_answer_is_not_empty() {
    let v = video_probe(&[ProbeValue::Width(1), ProbeValue::Height(2)]).unwrap();
    assert!(with_audio(v, true, b"audio\n").info.has_audio);
    assert!(!with_audio(v, true, b"").info.has_audio);
    assert!(!with_audio(v, false, b"audio\n").info.has_audio);
    assert_eq!(with_audio(v, true, b"").info.height, 2);
}

#[test]
fn questions() {
    assert_eq!(
        video_probe_args("U").join(" "),
        "-v error -select_streams v:0 -show_entries stream=width,height,r_frame_rate \
         -show_entries format=duration -of default=noprint_wrappers=1:nokey=0 U"
    );
    assert_eq!(
        audio_probe_args("U").join(" "),
        "-v error -select_streams a:0 -show_entries stream=codec_type -of csv=p=0 U"
    );
    assert_eq!(
        decoder_args("U", 0, "0.000").join(" "),
        "-hide_banner -loglevel error -nostats -re -i U -an -sn -dn -pix_fmt bgra -f rawvideo -"
    );
    assert_eq!(
        decoder_args("U", 1500, "1.500").join(" "),
        "-hide_banner -loglevel error -nostats -re -ss 1.500 -i U -an -sn -dn -pix_fmt bgra -f rawvideo -"
    );
    assert_eq!(
        sound_args("U", 1500, "1.500", 80, false).join(" "),
        "-nodisp -autoexit -hide_banner -loglevel error -volume 80 -ss 1.500 -i U"
    );
    assert_eq!(
        sound_args("U", 0, "0.000", 80, true).join(" "),
        "-nodisp -autoexit -hide_banner -loglevel error -volume 0 -i U"
    );
}

#[test]
fn frames_take_a_second_over_the_frame_rate() {
    assert_eq!(frame_interval(25, 1), 400_000);
    assert_eq!(frame_interval(30000, 1001), 333_666);
    assert_eq!(frame_interval(0, 0), 10_000_000);
    assert_eq!(frame_interval(u64::MAX, 1), 1);
    assert_eq!(frame_interval(1, 1 << 63), 0);
}

#[test]
fn frames_are_evenly_spaced() {
    let mut p = Player::new();
    let f = take_frame(&mut p, &[1, 2, 3, 0, 4, 5, 6, 0], 2, 1, 1000, 3, 400_000);
    assert_eq!((f.width, f.height, f.timestamp_ms), (2, 1, 1120));
    assert_eq!(f.data, vec![0x03_02_01, 0x06_05_04]);
    assert_eq!(p.position_100ns, 11_200_000);
    take_frame(&mut p, &[], 2, 1, 1000, 4, 400_000);
    assert_eq!(p.position_100ns, 11_600_000);
    assert!(has_timestamp(1000, 4, 400_000));
    assert!(!has_timestamp(1000, u64::MAX / 2, 400_000));
    assert!(!has_timestamp(u64::MAX / 2, 0, 1));
}

fn playing(p: &mut Player) -> LinuxDecoder {
    let mut d = LinuxDecoder::new(p, true, 500, VOLUME);
    assert_eq!(p.position_ms(), 500);
    let s = d.command(p, Cmd::Play);
    assert_eq!((s.stop_decoder, s.stop_audio, s.start), (false, false, Start::Decoder));
    assert!(d.on_decoder_start(p, true));
    d.on_audio_start(true);
    assert_eq!(p.state(), PlayerState::Playing);
    d
}

#[test]
fn playing_starts_both_programs() {
    let mut p = Player::new();
    let mut d = playing(&mut p);
    assert!(d.playing && d.decoder_runs && d.audio_runs);
    assert_eq!(d.command(&mut p, Cmd::Play).start, Start::Nothing);
}

#[test]
fn pause_stops_both_and_playing_goes_on_there() {
    let mut p = Player::new();
    let mut d = playing(&mut p);
    p.position_100ns = 12_345_678;
    let s = d.command(&mut p, Cmd::Pause);
    assert_eq!((s.stop_decoder, s.stop_audio, s.start), (true, true, Start::Nothing));
    assert_eq!(p.state(), PlayerState::Paused);
    assert!(!d.decoder_runs && !d.audio_runs);
    assert_eq!(d.command(&mut p, Cmd::Play).start, Start::Decoder);
    assert_eq!(d.current_start_ms, 1234);
}

#[test]
fn seek_starts_the_decoder_anew() {
    let mut p = Player::new();
    let mut d = playing(&mut p);
    let s = d.command(&mut p, Cmd::Seek(9000));
    assert_eq!((s.stop_decoder, s.stop_audio, s.start), (true, true, Start::Decoder));
    assert_eq!((d.current_start_ms, p.position_ms()), (9000, 9000));
    assert!(!d.on_decoder_start(&mut p, false));
    assert_eq!(p.state(), PlayerState::Error);
    assert!(!d.playing);
    assert_eq!(d.command(&mut p, Cmd::Seek(1)).start, Start::Nothing);
    assert_eq!(p.state(), PlayerState::Paused);
}

#[test]
fn sound_is_started_anew_when_its_volume_changes() {
    let mut p = Player::new();
    let mut d = playing(&mut p);
    p.position_100ns = 20_000;
    let s = d.command(&mut p, Cmd::SetVolume(7));
    assert_eq!((s.stop_decoder, s.stop_audio, s.start), (false, true, Start::Audio));
    assert_eq!((d.volume, d.current_start_ms), (7, 2));
    d.on_audio_start(false);
    assert!(!d.audio_runs && d.playing);
    d.command(&mut p, Cmd::SetMute(true));
    assert!(d.muted);
    d.command(&mut p, Cmd::Pause);
    assert_eq!(d.command(&mut p, Cmd::SetMute(false)).start, Start::Nothing);
    assert!(!d.muted);
}

#[test]
fn end_of_the_program_is_the_end_of_the_stream() {
    let mut p = Player::new();
    let mut d = playing(&mut p);
    assert!(!d.poll(&mut p, DecoderStatus::Running));
    assert!(d.poll(&mut p, DecoderStatus::Exited));
    assert_eq!(p.state(), PlayerState::EndOfStream);
    assert!(!d.poll(&mut p, DecoderStatus::Exited));
    let mut d = playing(&mut p);
    assert!(d.poll(&mut p, DecoderStatus::Failed));
    assert_eq!(p.state(), PlayerState::Error);
}

#[test]
fn stop_ends_the_loop() {
    let mut p = Player::new();
    let mut d = playing(&mut p);
    assert_eq!(d.command(&mut p, Cmd::Stop).start, Start::Exit);
    assert_eq!(p.state(), PlayerState::Stopped);
    LinuxDecoder::probe_failed(&mut p);
    assert_eq!(p.state(), PlayerState::Error);
}
