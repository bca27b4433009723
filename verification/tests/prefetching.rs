use snek_apollo::failure::{file_failure, write_failure, Failure};
use snek_apollo::playlist::HlsSegment;
use snek_apollo::prefetch::{
    cache_filename, prefetched, take_init, worker_count, FetchStep, FileNames, HlsPrefetchResult,
    SegmentBoard, SegmentFetch,
};
use snek_apollo::request::{build_init_request, build_request, request_headers_for, USER_AGENT};
use snek_apollo::source::plays_from_file;
use snek_apollo::temp_files::{cleanup_temp_files, get_available_ram, register_for_cleanup};

fn segments(n: usize) -> Vec<HlsSegment> {
    (0..n).map(|i| HlsSegment { url: format!("http://h/{}", i), index: i }).collect()
}

fn image(board: &SegmentBoard, init: Option<&[u8]>) -> Vec<u8> {
    let mut out = Vec::new();
    for part in board.file_parts(init) {
        out.extend_from_slice(part.bytes);
    }
    out
}

#[test]
fn segments_stand_in_their_order_whatever_the_order_of_finishing() {
    for order in [[0usize, 1, 2], [2, 0, 1], [1, 2, 0]] {
        let mut board = SegmentBoard::new(segments(3));
        assert_eq!(board.total(), 3);
        for i in order {
            board.finish(i, vec![i as u8, 10 + i as u8]);
        }
        assert_eq!(board.done(), 3);
        assert_eq!(image(&board, Some(&[7])), vec![7, 0, 10, 1, 11, 2, 12]);
        assert_eq!(image(&board, None), vec![0, 10, 1, 11, 2, 12]);
    }
}

#[test]
fn work_is_taken_from_the_end() {
    let mut board = SegmentBoard::new(segments(2));
    assert_eq!(board.take().unwrap().index, 1);
    assert_eq!(board.take().unwrap().url, "http://h/0");
    assert!(board.take().is_none());
}

#[test]
fn missing_segment_leaves_a_gap() {
    let mut board = SegmentBoard::new(segments(3));
    board.finish(0, vec![1]);
    board.finish(1, vec![]);
    board.finish(2, vec![3]);
    assert_eq!(board.done(), 3);
    assert_eq!(image(&board, None), vec![1, 3]);
}

#[test]
fn workers_are_at_most_thirty_two() {
    assert_eq!(worker_count(0), 0);
    assert_eq!(worker_count(31), 31);
    assert_eq!(worker_count(32), 32);
    assert_eq!(worker_count(1000), 32);
}

#[test]
fn segment_is_given_up_after_three_failures() {
    let mut f = SegmentFetch::new();
    assert_eq!(f.failed(), FetchStep::AfterPause);
    assert_eq!(f.answered(vec![1], false), FetchStep::Again);
    assert_eq!(f.failed(), FetchStep::AfterPause);
    assert_eq!(f.failed(), FetchStep::Done);
    let mut f = SegmentFetch::new();
    assert_eq!(f.answered(vec![1, 2], true), FetchStep::Done);
    assert_eq!(f.bytes, vec![1, 2]);
}

#[test]
fn files_are_named_after_label_and_time() {
    assert_eq!(cache_filename("video", 1700000000123, true), "snek_hls_cache_video_1700000000123.ts");
    assert_eq!(cache_filename("audio", 0, false), "snek_hls_cache_audio_0.mp4");
    assert!(cache_filename("video", 1, true) != cache_filename("video", 2, true));
}

#[test]
fn recorded_stream_plays_from_its_file() {
    let r = HlsPrefetchResult::recorded(String::from("v"), Some(String::from("a")), 5);
    assert_eq!((r.video_file.as_str(), r.audio_file.as_deref(), r.duration_ms), ("v", Some("a"), 5));
    assert!(plays_from_file(&Ok(r)));
    let live = HlsPrefetchResult::live();
    assert!(live.is_live && live.video_file.is_empty() && live.duration_ms == 0);
    assert!(!plays_from_file(&Ok(live)));
    assert!(!plays_from_file(&Err(String::from("x"))));
}

#[test]
fn request_carries_the_headers_of_a_browser() {
    let req = build_request("https://cdn.example/v.m3u8");
    assert_eq!(req.method(), "GET");
    assert_eq!(req.url(), "https://cdn.example/v.m3u8");
    assert_eq!(req.header("User-Agent"), Some(USER_AGENT));
    assert_eq!(req.header("Accept"), Some("*/*"));
    assert_eq!(req.header("Sec-Ch-Ua-Platform"), Some("\"Windows\""));
    assert_eq!(req.header("Referer"), None);
    assert_eq!(req.header_names().len(), 9);
}

#[test]
fn some_servers_get_a_referer() {
    let referer = |url: &str| build_request(url).header("Referer").map(String::from);
    assert_eq!(referer("https://img.gelbooru.com/1"), Some(String::from("https://gelbooru.com/")));
    assert_eq!(
        referer("https://cdn.donmai.us/1"),
        Some(String::from("https://danbooru.donmai.us/"))
    );
    assert_eq!(referer("https://api.rule34.xxx/1"), Some(String::from("https://rule34.xxx/")));
    let req = build_request("https://x.lh3-ggcontent.top/1");
    assert_eq!(req.header("Referer"), Some("https://play2.cdn-xvideos-xnxx.xyz/"));
    assert_eq!(req.header("Origin"), Some("https://play2.cdn-xvideos-xnxx.xyz"));
    assert_eq!(request_headers_for("https://x.uptobox-ggcdn.top/1").len(), 11);
}

#[test]
fn header_names_of_a_request_are_distinct() {
    let headers = request_headers_for("https://x.uptobox-ggcdn.top/1");
    for i in 0..headers.len() {
        for j in 0..i {
            assert!(headers[i].0 != headers[j].0);
        }
    }
}

#[test]
fn initialisation_segment_is_asked_for_plainly() {
    let req = build_init_request("https://cdn.example/i.mp4");
    assert_eq!(req.method(), "GET");
    assert_eq!(req.url(), "https://cdn.example/i.mp4");
    assert_eq!(req.header_names(), vec!["user-agent"]);
    assert_eq!(req.header("User-Agent"), Some(USER_AGENT));
}

#[test]
fn files_are_removed_once() {
    let mut paths = Vec::new();
    register_for_cleanup(&mut paths, String::from("a"));
    register_for_cleanup(&mut paths, String::from("b"));
    assert_eq!(cleanup_temp_files(&mut paths), vec!["a", "b"]);
    assert_eq!(cleanup_temp_files(&mut paths), Vec::<String>::new());
}

#[test]
fn memory_is_what_the_system_reports() {
    assert_eq!(get_available_ram(Some(5)), 5);
    assert_eq!(get_available_ram(None), 1024 * 1024 * 1024);
}

#[test]
fn files_made_in_the_same_millisecond_have_different_names() {
    let mut names = FileNames::new();
    assert!(names.has_room(5));
    assert_eq!(names.next("video", 5, true), "snek_hls_cache_video_5.ts");
    assert_eq!(names.next("video", 5, true), "snek_hls_cache_video_6.ts");
    assert_eq!(names.next("video", 5, true), "snek_hls_cache_video_7.ts");
    assert!(names.has_room(u128::MAX - 3));
    assert!(!names.has_room(u128::MAX - 2));
}

#[test]
fn name_with_the_time_is_given_where_it_is_free() {
    let mut names = FileNames::new();
    assert_eq!(names.next("video", 5, true), "snek_hls_cache_video_5.ts");
    assert_eq!(names.next("audio", 5, true), "snek_hls_cache_audio_5.ts");
    assert_eq!(names.next("video", 5, false), "snek_hls_cache_video_5.mp4");
    assert_eq!(names.next("video", 3, true), "snek_hls_cache_video_3.ts");
    assert_eq!(names.next("video", 4, true), "snek_hls_cache_video_4.ts");
    assert_eq!(names.next("video", 3, true), "snek_hls_cache_video_6.ts");
}

#[test]
fn stream_is_there_only_with_its_audio() {
    let ok = |s: &str| -> Result<String, String> { Ok(String::from(s)) };
    let err = |s: &str| -> Result<String, String> { Err(String::from(s)) };
    assert_eq!(prefetched(err("v"), Some(err("a")), 9).err().unwrap(), "v");
    assert_eq!(prefetched(err("v"), None, 9).err().unwrap(), "v");
    assert_eq!(prefetched(ok("v"), Some(err("a")), 9).err().unwrap(), "a");
    let r = prefetched(ok("v"), Some(ok("a")), 9).ok().unwrap();
    assert_eq!((r.video_file.as_str(), r.audio_file.as_deref()), ("v", Some("a")));
    assert_eq!((r.duration_ms, r.is_live), (9, false));
    assert!(prefetched(ok("v"), None, 9).ok().unwrap().audio_file.is_none());
}

#[test]
fn parts_of_a_file_are_numbered() {
    let mut board = SegmentBoard::new(segments(3));
    board.finish(2, vec![3]);
    board.finish(0, vec![1]);
    let places = |init: Option<&[u8]>| -> Vec<Option<usize>> {
        board.file_parts(init).iter().map(|p| p.segment).collect()
    };
    assert_eq!(places(None), vec![Some(0), Some(2)]);
    assert_eq!(places(Some(&[9])), vec![None, Some(0), Some(2)]);
}

#[test]
fn download_without_its_init_segment_fails() {
    assert_eq!(take_init(None), Ok(None));
    assert_eq!(take_init(Some(Ok(vec![1]))), Ok(Some(vec![1])));
    assert_eq!(
        take_init(Some(Err(String::from("timeout")))),
        Err(String::from("Init segment failed: timeout"))
    );
}

#[test]
fn failures_are_put_in_words() {
    let said = |f: Failure| f.message("x");
    assert_eq!(said(Failure::Playlist), "HLS playlist fetch failed: x");
    assert_eq!(said(Failure::MediaPlaylist), "Media playlist fetch failed: x");
    assert_eq!(said(Failure::PlaylistText), "Read error: x");
    assert_eq!(said(Failure::AudioPlaylist), "Audio playlist: x");
    assert_eq!(said(Failure::AudioPlaylistText), "Read: x");
    assert_eq!(said(Failure::Init), "Init segment failed: x");
    assert_eq!(said(Failure::VideoProbe), "ffprobe not available: x");
    assert_eq!(said(Failure::AudioProbe), "ffprobe audio probe failed: x");
    assert_eq!(said(Failure::Decoder), "failed to spawn ffmpeg: x");
    assert_eq!(said(Failure::Sound), "failed to spawn ffplay: x");
    assert_eq!(said(Failure::Objects), "COM: x");
    assert_eq!(said(Failure::Framework), "MF: x");
    assert_eq!(said(Failure::Resolver), "MFCreateSourceResolver: x");
    assert_eq!(said(Failure::Resolving), "Source resolver failed: x");
    assert_eq!(said(Failure::BufferReader), "Open MediaSource: x");
    assert_eq!(write_failure(None, "x"), "Init write error: x");
    assert_eq!(write_failure(Some(12), "x"), "Segment 12 write error: x");
    assert_eq!(file_failure("/t/f", "x"), "Failed to create cache file /t/f: x");
}
