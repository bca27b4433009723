use snek_apollo::audio::{
    audio_format, has_distance, has_format, AudioCmd, AudioPump, AudioQueue, PumpSample,
};
use snek_apollo::remux::{
    container_for, copies, Container, RemuxError, RemuxStep, StreamMap,
};
use snek_apollo::source::{
    audio_is_usable, audio_source, content_type, direct_source, first_stream, media_duration,
    next_format, nothing_more, picture_size, resolve_attempts, source_kind, still_fills, streaming_duration,
    streams_ended,
    system_reader_referer, video_stream, AudioSource, DirectSource, OpenError, PictureFormat,
    SourceKind, StreamKind, AUDIO_START_BYTES, NO_LOCAL_PLUGINS, VIDEO_START_BYTES,
};
use snek_apollo::stream_buffer::StreamBuffer;
use snek_apollo::{Player, PlayerState};

#[test]
fn format_of_a_device() {
    let f = audio_format(3, 48_000, 2, 32);
    assert!(f.is_float);
    assert_eq!((f.block_align, f.bytes_per_second), (8, 384_000));
    assert!(audio_format(0xFFFE, 44_100, 2, 32).is_float);
    assert!(!audio_format(0xFFFE, 44_100, 2, 16).is_float);
    assert!(!audio_format(1, 44_100, 2, 32).is_float);
    assert!(has_format(48_000, 2, 32));
    assert!(!has_format(48_000, 4096, 16));
    assert!(!has_format(u32::MAX, 2, 8));
    assert!(has_format(u32::MAX, 1, 8));
}

#[test]
fn sound_is_played_in_its_order() {
    let mut q = AudioQueue::new();
    assert!(!q.receive(AudioCmd::Data(vec![1, 2, 3])));
    assert!(!q.receive(AudioCmd::Data(vec![4, 5])));
    assert_eq!(q.frames_to_write(10, 9, 2), 1);
    assert_eq!(q.frames_to_write(10, 0, 2), 2);
    assert_eq!(q.frames_to_write(10, 10, 2), 0);
    assert_eq!(q.frames_to_write(10, 0, 0), 0);
    assert_eq!(q.head(2, 2), &[1, 2, 3, 4]);
    q.wrote(1, 2);
    assert_eq!(q.head(1, 3), &[3, 4, 5]);
    assert!(q.receive(AudioCmd::Flush));
    assert_eq!(q.frames_to_write(10, 0, 1), 0);
}

#[test]
fn pump_follows_a_seek_and_a_pause_once() {
    let mut p = Player::new();
    let mut pump = AudioPump::new();
    p.state = PlayerState::Playing.as_u8();
    let t = pump.poll(&p).unwrap();
    assert_eq!((t.seek_to, t.flush, t.read), (None, false, true));
    p.seek_id = 3;
    p.position_100ns = 77;
    assert_eq!(pump.poll(&p).unwrap().seek_to, Some(77));
    assert_eq!(pump.poll(&p).unwrap().seek_to, None);
    p.state = PlayerState::Paused.as_u8();
    let t = pump.poll(&p).unwrap();
    assert_eq!((t.flush, t.read), (true, false));
    assert!(!pump.poll(&p).unwrap().flush);
    p.state = PlayerState::Error.as_u8();
    assert!(pump.poll(&p).is_none());
}

#[test]
fn pump_keeps_sound_in_step() {
    let mut p = Player::new();
    let pump = AudioPump::new();
    p.state = PlayerState::Playing.as_u8();
    p.position_100ns = 10_000_000;
    assert_eq!(pump.on_sample(&p, 1, 0, true), PumpSample::Exit);
    assert_eq!(pump.on_sample(&p, 2, 0, true), PumpSample::Exit);
    assert_eq!(pump.on_sample(&p, 4, 10_000_000, true), PumpSample::Send);
    assert_eq!(pump.on_sample(&p, 0, 0, false), PumpSample::Again);
    assert_eq!(pump.on_sample(&p, 0, 10_500_000, true), PumpSample::Send);
    assert_eq!(pump.on_sample(&p, 0, 10_500_001, true), PumpSample::Hold);
    assert_eq!(pump.on_sample(&p, 0, 5_000_000, true), PumpSample::Send);
    assert_eq!(pump.on_sample(&p, 0, 4_999_999, true), PumpSample::Again);
    assert!(pump.holds(&p, 10_500_001, 1_995));
    assert!(!pump.holds(&p, 10_500_001, 2_000));
    assert!(!pump.holds(&p, 10_500_000, 0));
    p.seek_id = 1;
    assert!(!pump.holds(&p, 10_500_001, 0));
    p.seek_id = 0;
    p.state = PlayerState::Stopped.as_u8();
    assert!(!pump.holds(&p, 10_500_001, 0));
    assert!(has_distance(0, i64::MAX));
    assert!(!has_distance(0, i64::MIN));
}

#[test]
fn media_are_told_apart() {
    assert_eq!(source_kind("https://h/a.m3u8"), SourceKind::Hls);
    assert_eq!(source_kind("https://h/a.mp4"), SourceKind::Direct);
    assert_eq!(source_kind("/tmp/a.m3u8"), SourceKind::Local);
    assert_eq!(source_kind("ftp://h/a.mp4"), SourceKind::Local);
}

#[test]
fn reading_begins_when_enough_is_there() {
    let mut b = StreamBuffer::new();
    assert!(still_fills(&b, VIDEO_START_BYTES));
    b.push(&vec![0u8; 65_536]);
    assert!(!still_fills(&b, AUDIO_START_BYTES));
    assert!(still_fills(&b, VIDEO_START_BYTES));
    b.set_eos();
    assert!(!still_fills(&b, VIDEO_START_BYTES));
}

#[test]
fn buffers_that_can_be_read() {
    let mut b = StreamBuffer::new();
    assert_eq!(streaming_duration(&b), Err(OpenError::StreamingFailed));
    assert_eq!(direct_source(&b), Err(OpenError::NoBytes));
    assert!(!audio_is_usable(&b));
    b.push(b"x");
    b.set_duration_ms(9);
    assert_eq!(streaming_duration(&b), Ok(9));
    assert_eq!(direct_source(&b), Ok(DirectSource::Buffer));
    assert!(audio_is_usable(&b));
    b.set_error(String::from("e"));
    assert_eq!(streaming_duration(&b), Err(OpenError::StreamingFailed));
    assert_eq!(direct_source(&b), Ok(DirectSource::SystemReader));
    assert!(!audio_is_usable(&b));
}

#[test]
fn referer_of_the_system_reader() {
    assert_eq!(system_reader_referer("https://x.gelbooru.com/a"), Some("https://gelbooru.com/"));
    assert_eq!(system_reader_referer("https://x.donmai.us/a"), Some("https://danbooru.donmai.us/"));
    assert_eq!(system_reader_referer("https://x.rule34.xxx/a"), None);
}

#[test]
fn attempts_to_resolve_a_buffer() {
    let a = resolve_attempts(true);
    let got: Vec<(Option<&str>, u32)> = a.iter().map(|a| (a.hint, a.flags)).collect();
    assert_eq!(
        got,
        vec![(Some("dummy.ts"), 0), (None, 0), (Some("dummy.ts"), 0x40), (None, NO_LOCAL_PLUGINS)]
    );
    assert_eq!(resolve_attempts(false)[0].hint, Some("dummy.mp4"));
    assert_eq!((content_type(true), content_type(false)), ("video/mp2t", "video/mp4"));
}

#[test]
fn first_streams_are_used() {
    let kinds = [StreamKind::Other, StreamKind::Audio, StreamKind::Video, StreamKind::Audio];
    assert_eq!(video_stream(&kinds), Ok(2));
    assert_eq!(first_stream(&kinds, StreamKind::Audio), Some(1));
    assert_eq!(video_stream(&[StreamKind::Audio]), Err(OpenError::NoVideo));
    let mut many = vec![StreamKind::Other; 16];
    many.push(StreamKind::Video);
    assert_eq!(video_stream(&many), Err(OpenError::NoVideo));
}

#[test]
fn formats_are_tried_in_turn() {
    assert_eq!(next_format(false, false), Ok(PictureFormat::Rgb32));
    assert_eq!(next_format(true, false), Ok(PictureFormat::Nv12));
    assert_eq!(next_format(true, true), Err(OpenError::NoFormat));
}

#[test]
fn sizes_and_durations() {
    assert_eq!(picture_size((1920 << 32) | 1080), Ok((1920, 1080)));
    assert_eq!(picture_size(1080), Err(OpenError::BadDimensions));
    assert_eq!(picture_size(1920 << 32), Err(OpenError::BadDimensions));
    assert_eq!(media_duration(Some(123_456_789), 0), 12_345);
    assert_eq!(media_duration(Some(123_456_789), 5), 5);
    assert_eq!(media_duration(None, 0), 0);
}

#[test]
fn own_sound_comes_first() {
    assert_eq!(audio_source(Some(1), Some(2)), AudioSource::Own(1));
    assert_eq!(audio_source(None, Some(2)), AudioSource::Separate(2));
    assert_eq!(audio_source(None, None), AudioSource::Silent);
}

#[test]
fn errors_are_put_in_words() {
    assert_eq!(OpenError::StreamingFailed.message(), "HLS streaming failed");
    assert_eq!(OpenError::NoBytes.message(), "Download produced 0 bytes");
    assert_eq!(OpenError::NoSource.message(), "Failed to open media source");
    assert_eq!(OpenError::NoVideo.message(), "No video stream");
    assert_eq!(OpenError::NoFormat.message(), "No supported video format");
    assert_eq!(OpenError::BadDimensions.message(), "Bad dims");
    assert_eq!(RemuxError::NoStreams.message(), "No streams found");
    assert_eq!(RemuxError::Unsupported.message(), "Remuxing is only supported on Windows");
}

#[test]
fn samples_go_to_the_stream_they_belong_to() {
    let mut m = StreamMap::new();
    assert_eq!(m.ready(), Err(RemuxError::NoStreams));
    m.connect(0, 5);
    m.connect(3, 6);
    assert_eq!(m.ready(), Ok(()));
    assert_eq!(m.route(0, 3, true), RemuxStep::Write(6));
    assert_eq!(m.route(1, 0, true), RemuxStep::Write(5));
    assert_eq!(m.route(0, 1, true), RemuxStep::Skip);
    assert_eq!(m.route(0, 0, false), RemuxStep::Skip);
    assert_eq!(m.route(2, 0, true), RemuxStep::End);
    assert_eq!(m.route(3, 0, true), RemuxStep::End);
    assert!(copies(StreamKind::Video) && copies(StreamKind::Audio) && !copies(StreamKind::Other));
    assert_eq!(container_for(true), Container::Mpeg2);
    assert_eq!(container_for(false), Container::Mpeg4);
}

#[test]
fn flags_of_a_reader() {
    let got: Vec<(bool, bool)> = (0..5).map(|f| (nothing_more(f), streams_ended(f))).collect();
    assert_eq!(
        got,
        vec![(false, false), (true, false), (true, true), (true, true), (false, false)]
    );
}

#[test]
fn flush_forgets_what_came_before() {
    let mut q = AudioQueue::new();
    q.receive(AudioCmd::Data(vec![1, 2]));
    q.receive(AudioCmd::Flush);
    q.receive(AudioCmd::Data(vec![3]));
    assert_eq!(q.head(1, 1), &[3]);
    assert_eq!(q.frames_to_write(10, 0, 1), 1);
}
