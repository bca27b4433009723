use snek_apollo::byte_stream::{SeekError, SnekByteStream};
use snek_apollo::download::DirectDownload;
use snek_apollo::rendition::{
    after_failed_fetch, after_pass, find_renditions, EntryStep, InitStep, Rendition,
};
use snek_apollo::stream_buffer::{progress, ReadStep, StreamBuffer};

#[test]
fn read_gives_back_what_was_pushed() {
    let mut b = StreamBuffer::new();
    b.push(b"hello ");
    b.push(b"world");
    assert_eq!(b.total_written(), 11);
    let mut out = [0u8; 5];
    assert_eq!(b.read_at(6, &mut out), 5);
    assert_eq!(&out, b"world");
    let mut out = [9u8; 8];
    assert_eq!(b.read_at(8, &mut out), 3);
    assert_eq!(&out, b"rld\x09\x09\x09\x09\x09");
    assert_eq!(b.read_at(11, &mut out), 0);
    assert_eq!(b.read_at(500, &mut out), 0);
}

#[test]
fn reader_waits_until_bytes_come_or_the_end() {
    let mut b = StreamBuffer::new();
    b.push(b"ab");
    assert_eq!(b.read_step(1, false), ReadStep::Read);
    assert_eq!(b.read_step(2, false), ReadStep::Wait);
    assert_eq!(b.read_step(2, true), ReadStep::GiveUp);
    b.set_eos();
    assert_eq!(b.read_step(2, true), ReadStep::Read);
}

#[test]
fn seek_empties_the_buffer_and_is_taken_once() {
    let mut b = StreamBuffer::new();
    b.push(b"abc");
    b.set_eos();
    b.request_seek(10);
    b.request_seek(7000);
    assert_eq!(b.bytes_held(), 0);
    assert_eq!(b.total_written(), 3);
    assert!(!b.is_eos());
    assert_eq!(b.take_seek_request(), Some(7000));
    assert_eq!(b.take_seek_request(), None);
    b.request_seek(u64::MAX);
    assert_eq!(b.take_seek_request(), None);
}

#[test]
fn cache_outlives_seeks() {
    let mut b = StreamBuffer::new();
    assert_eq!(b.cache_get("k"), None);
    b.cache_put(String::from("k"), vec![1, 2]);
    b.request_seek(5);
    assert_eq!(b.cache_get("k"), Some(vec![1, 2]));
    b.cache_put(String::from("k"), vec![3]);
    assert_eq!(b.cache_get("k"), Some(vec![3]));
    assert_eq!(b.cache_get("l"), None);
}

#[test]
fn error_ends_the_buffer() {
    let mut b = StreamBuffer::new();
    assert!(!b.has_error());
    b.set_error(String::from("no"));
    assert!(b.has_error());
    assert!(b.is_eos());
    assert_eq!(b.error_msg(), "no");
}

#[test]
fn marks_of_a_buffer_are_kept() {
    let mut b = StreamBuffer::new();
    assert_eq!((b.get_duration_ms(), b.get_total_len()), (0, 0));
    assert!(!b.is_ts() && !b.is_prefetched() && !b.is_cancelled());
    b.set_duration_ms(5);
    b.set_total_len(6);
    b.set_is_ts(true);
    b.set_prefetched(true);
    b.cancel();
    assert_eq!((b.get_duration_ms(), b.get_total_len()), (5, 6));
    assert!(b.is_ts() && b.is_prefetched() && b.is_cancelled());
}

#[test]
fn progress_is_a_fraction() {
    let mut b = StreamBuffer::new();
    let p = b.download_progress();
    assert_eq!((p.done, p.whole), (0, 1));
    b.set_segments(3, 8);
    let p = b.download_progress();
    assert_eq!((p.done, p.whole), (3, 8));
    let p = progress(9, 8);
    assert_eq!((p.done, p.whole), (8, 8));
}

#[test]
fn byte_stream_reads_on() {
    let mut b = StreamBuffer::new();
    b.push(b"0123456789");
    b.set_eos();
    let mut s = SnekByteStream::new();
    let mut out = [0u8; 4];
    assert_eq!(s.read(&b, &mut out), 4);
    assert_eq!(&out, b"0123");
    assert_eq!(s.get_current_position(), 4);
    s.begin_read(&b, &mut out);
    assert_eq!(s.end_read(), 4);
    assert_eq!(&out, b"4567");
    assert!(!s.is_end_of_stream(&b));
    assert_eq!(s.read(&b, &mut out), 2);
    assert!(s.is_end_of_stream(&b));
    assert_eq!(s.end_read(), 4);
}

#[test]
fn byte_stream_length_is_that_of_the_file() {
    let mut b = StreamBuffer::new();
    let s = SnekByteStream::new();
    assert_eq!(s.get_length(&b), u64::MAX);
    b.set_total_len(77);
    assert_eq!(s.get_length(&b), 77);
}

#[test]
fn byte_stream_seeks() {
    let mut b = StreamBuffer::new();
    b.push(b"0123456789");
    let mut s = SnekByteStream::new();
    s.set_current_position(3);
    assert!(s.seek_fits(&b, 1, 2));
    assert_eq!(s.seek(&b, 1, 2), Ok(5));
    assert_eq!(s.seek(&b, 1, -2), Ok(3));
    assert_eq!(s.seek(&b, 0, 8), Ok(8));
    assert_eq!(s.seek(&b, 2, -4), Ok(6));
    assert_eq!(s.seek(&b, 0, -1), Err(SeekError::BeforeStart));
    assert_eq!(s.get_current_position(), 6);
    b.set_total_len(100);
    assert_eq!(s.seek(&b, 2, -4), Ok(96));
    assert!(!s.seek_fits(&b, 1, i64::MAX));
}

#[test]
fn file_is_downloaded_whole() {
    let mut b = StreamBuffer::new();
    let mut d = DirectDownload::start(&mut b, Some("10"));
    assert_eq!(b.get_total_len(), 10);
    assert!(d.on_chunk(&mut b, b"abc"));
    assert!(d.on_chunk(&mut b, b"de"));
    assert!(!d.on_chunk(&mut b, b""));
    d.finish(&mut b);
    assert_eq!(d.received, 5);
    assert_eq!(b.get_total_len(), 10);
    assert!(b.is_eos());
    let mut out = [0u8; 5];
    assert_eq!(b.read_at(0, &mut out), 5);
    assert_eq!(&out, b"abcde");
}

#[test]
fn file_without_a_length_has_that_of_its_bytes() {
    for header in [None, Some("x"), Some(" 5"), Some("0")] {
        let mut b = StreamBuffer::new();
        let mut d = DirectDownload::start(&mut b, header);
        assert!(d.on_chunk(&mut b, b"abc"));
        d.finish(&mut b);
        assert_eq!(b.get_total_len(), 3);
    }
}

#[test]
fn cancelled_download_takes_nothing() {
    let mut b = StreamBuffer::new();
    let mut d = DirectDownload::start(&mut b, None);
    b.cancel();
    assert!(!d.on_chunk(&mut b, b"abc"));
    assert_eq!(b.total_written(), 0);
}

#[test]
fn failed_download_says_where_and_why() {
    let mut b = StreamBuffer::new();
    DirectDownload::fail(&mut b, "http://h/f", "status code 403");
    assert_eq!(b.error_msg(), "http://h/f: status code 403");
    assert!(b.has_error() && b.is_eos());
}

fn bytes_of(b: &StreamBuffer) -> Vec<u8> {
    let mut out = vec![0u8; b.bytes_held()];
    b.read_at(0, &mut out);
    out
}

#[test]
fn rendition_takes_each_segment_once() {
    let mut b = StreamBuffer::new();
    let mut r = Rendition::new(0);
    assert_eq!(r.begin_pass(&mut b), None);
    match r.on_playlist(&mut b, "http://h/v.m3u8", "#EXT-X-MAP:URI=\"i.mp4\"\n") {
        InitStep::Fetch(url) => assert_eq!(url, "http://h/i.mp4"),
        InitStep::Nothing => panic!("an initialisation segment is named"),
    }
    assert!(!b.is_ts());
    r.init_fetched(&mut b, vec![1]);
    assert!(r.wants_duration(&b, false));
    assert!(!r.wants_duration(&b, true));
    match r.on_entry(&mut b, "http://h/v.m3u8", "a", false) {
        EntryStep::Fetch(url) => {
            assert_eq!(url, "http://h/a");
            r.segment_fetched(&mut b, url, vec![2, 3]);
        }
        _ => panic!("the segment is new"),
    }
    assert!(!r.wants_duration(&b, false));
    assert!(matches!(r.on_entry(&mut b, "http://h/v.m3u8", "a", false), EntryStep::Known));
    assert!(matches!(r.on_entry(&mut b, "http://h/v.m3u8", "a", true), EntryStep::Known));
    assert_eq!(bytes_of(&b), vec![1, 2, 3]);
}

#[test]
fn seek_starts_a_rendition_anew() {
    let mut b = StreamBuffer::new();
    let mut r = Rendition::new(0);
    r.init_fetched(&mut b, vec![1]);
    if let EntryStep::Fetch(url) = r.on_entry(&mut b, "http://h/v.m3u8", "a", false) {
        r.segment_fetched(&mut b, url, vec![2]);
    }
    b.request_seek(9000);
    assert_eq!(r.begin_pass(&mut b), Some(9000));
    assert_eq!(r.start_ms(), 9000);
    assert_eq!(bytes_of(&b), vec![1]);
    assert!(matches!(r.on_entry(&mut b, "http://h/v.m3u8", "z", true), EntryStep::PassedOver));
    assert!(matches!(r.on_entry(&mut b, "http://h/v.m3u8", "a", false), EntryStep::FromCache));
    assert_eq!(bytes_of(&b), vec![1, 2]);
    assert!(matches!(r.on_entry(&mut b, "http://h/v.m3u8", "z", true), EntryStep::Fetch(_)));
}

#[test]
fn playlist_without_a_map_is_mpeg_ts() {
    let mut b = StreamBuffer::new();
    let mut r = Rendition::new(0);
    assert!(matches!(r.on_playlist(&mut b, "http://h/v", "#EXTM3U\n"), InitStep::Nothing));
    assert!(b.is_ts());
}

#[test]
fn pauses_between_passes() {
    let mut b = StreamBuffer::new();
    assert_eq!(after_pass(&b, true), Some(2000));
    assert_eq!(after_pass(&b, false), Some(500));
    assert_eq!(after_failed_fetch(&b), Some(2000));
    b.cancel();
    b.request_seek(5);
    b.push(b"x");
    assert_eq!(after_pass(&b, true), None);
    assert_eq!(after_pass(&b, false), None);
    assert_eq!(after_failed_fetch(&b), None);
}

#[test]
fn total_counts_all_that_was_written() {
    let mut b = StreamBuffer::new();
    b.push(&[1, 2, 3]);
    b.request_seek(0);
    b.push(&[4]);
    assert_eq!(b.total_written(), 4);
    assert_eq!(b.bytes_held(), 1);
    assert_eq!(bytes_of(&b), vec![4]);
}

#[test]
fn renditions_come_from_the_answer_of_the_server() {
    let mut b = StreamBuffer::new();
    let text = String::from("#EXTM3U\n#EXT-X-STREAM-INF:BANDWIDTH=1\nv.m3u8\n");
    let r = find_renditions(&mut b, "http://h/m.m3u8", Ok(text)).unwrap();
    assert_eq!(r.video_url, "http://h/v.m3u8");
    assert!(r.audio_url.is_none() && !b.has_error());
    assert!(find_renditions(&mut b, "http://h/m.m3u8", Ok(String::from("<p>"))).is_none());
    assert_eq!(b.error_msg(), "Invalid M3U8 file");
    assert!(find_renditions(&mut b, "http://h/m.m3u8", Err(String::from("404"))).is_none());
    assert_eq!(b.error_msg(), "HLS playlist fetch failed: 404");
    assert!(b.has_error() && b.is_eos());
}

fn pass(r: &mut Rendition, b: &mut StreamBuffer, entries: &[(&str, bool)]) -> Vec<String> {
    let mut fetched = Vec::new();
    r.begin_pass(b);
    if let InitStep::Fetch(_) = r.on_playlist(b, "http://h/v", "#EXT-X-MAP:URI=\"i\"\n") {
        r.init_fetched(b, vec![0]);
    }
    for (segment, early) in entries {
        if let EntryStep::Fetch(url) = r.on_entry(b, "http://h/v", segment, *early) {
            fetched.push(segment.to_string());
            if *segment != "missing" {
                r.segment_fetched(b, url, segment.as_bytes().to_vec());
            }
        }
    }
    fetched
}

#[test]
fn stream_is_in_order_over_many_passes() {
    let mut b = StreamBuffer::new();
    let mut r = Rendition::new(0);
    pass(&mut r, &mut b, &[("a", false), ("missing", false), ("b", false), ("a", false)]);
    let again = pass(&mut r, &mut b, &[("missing", false), ("b", false), ("c", false)]);
    assert_eq!(again, vec!["c"]);
    assert_eq!(bytes_of(&b), b"\0abc".to_vec());
    assert!(!b.is_ts());
}

#[test]
fn seek_plays_from_the_cache() {
    let mut b = StreamBuffer::new();
    let mut r = Rendition::new(0);
    pass(&mut r, &mut b, &[("a", false), ("b", false), ("c", false)]);
    b.request_seek(5000);
    let fetched = pass(&mut r, &mut b, &[("a", true), ("b", false), ("c", false)]);
    assert_eq!(fetched, Vec::<String>::new());
    assert_eq!(bytes_of(&b), b"\0bc".to_vec());
    assert_eq!(b.take_seek_request(), None);
    b.request_seek(99_000);
    pass(&mut r, &mut b, &[("a", true), ("b", true), ("c", true)]);
    assert_eq!(bytes_of(&b), b"\0".to_vec());
}
