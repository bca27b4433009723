use snek_apollo::playlist::{
    can_read_durations, download_kind, duration_texts, init_segment, is_fragmented, is_live,
    media_entries, needs_media_playlist, read_media_playlist, recorded_duration_texts, resolve_url,
    select_renditions, DownloadKind, InitSegment,
};

const MASTER: &str = "#EXTM3U\n\
#EXT-X-MEDIA:TYPE=AUDIO,GROUP-ID=\"a\",URI=\"audio/en.m3u8\"\n\
#EXT-X-STREAM-INF:BANDWIDTH=800000,RESOLUTION=640x360\n\
low.m3u8\n\
#EXT-X-STREAM-INF:RESOLUTION=1280x720,BANDWIDTH=2500000\n\
 mid.m3u8 \n\
#EXT-X-STREAM-INF:BANDWIDTH=2500000 CODECS=x\n\
https://other.example/top.m3u8\n\
#EXT-X-STREAM-INF:BANDWIDTH=900000\n\
last.m3u8\n";

const MEDIA: &str = "#EXTM3U\r\n\
#EXT-X-MAP:URI=\"init.mp4\"\r\n\
#EXTINF:4.5,\r\n\
seg0.m4s\r\n\
#EXTINF:3,title\r\n\
 seg1.m4s \r\n\
#EXTINF:2.25\r\n\
#EXT-X-DISCONTINUITY\r\n\
#EXTINF:1,\r\n\
seg2.m4s\r\n\
#EXT-X-ENDLIST\r\n";

#[test]
fn addresses_are_resolved() {
    assert_eq!(resolve_url("https://a.b/c/d.m3u8", "e.ts"), "https://a.b/c/e.ts");
    assert_eq!(resolve_url("https://a.b/c/d.m3u8", "/e.ts"), "https://a.b/c//e.ts");
    assert_eq!(resolve_url("https://a.b/c/d.m3u8", "http://x/e.ts"), "http://x/e.ts");
    assert_eq!(resolve_url("d.m3u8", "e.ts"), "e.ts");
    assert_eq!(resolve_url("", ""), "");
}

#[test]
fn resolving_twice_changes_nothing() {
    let once = resolve_url("https://a.b/c/d.m3u8", "e.ts");
    assert_eq!(resolve_url("https://a.b/c/d.m3u8", &once), once);
}

#[test]
fn highest_bandwidth_is_chosen_and_the_later_of_equals() {
    let r = select_renditions("https://a.b/m/master.m3u8", MASTER).ok().unwrap();
    assert_eq!(r.video_url, "https://other.example/top.m3u8");
    assert_eq!(r.audio_url.as_deref(), Some("https://a.b/m/audio/en.m3u8"));
    assert!(needs_media_playlist("https://a.b/m/master.m3u8", &r));
}

#[test]
fn variant_without_a_bandwidth_counts_as_zero() {
    let r = select_renditions("http://h/x.m3u8", "#EXTM3U\n#EXT-X-STREAM-INF:FOO=1\na.m3u8\n")
        .ok()
        .unwrap();
    assert_eq!(r.video_url, "http://h/a.m3u8");
    let r = select_renditions(
        "http://h/x.m3u8",
        "#EXTM3U\n#EXT-X-STREAM-INF:BANDWIDTH=5\na.m3u8\n#EXT-X-STREAM-INF:BANDWIDTH=abc\nb.m3u8\n",
    )
    .ok()
    .unwrap();
    assert_eq!(r.video_url, "http://h/a.m3u8");
}

#[test]
fn media_playlist_leads_to_itself() {
    let r = select_renditions("http://h/x.m3u8", MEDIA).ok().unwrap();
    assert_eq!(r.video_url, "http://h/x.m3u8");
    assert_eq!(r.audio_url, None);
    assert!(!needs_media_playlist("http://h/x.m3u8", &r));
}

#[test]
fn last_audio_rendition_counts() {
    let text = "#EXTM3U\n#EXT-X-STREAM-INF:BANDWIDTH=1\nv.m3u8\n\
        #EXT-X-MEDIA:TYPE=AUDIO,URI=\"one.m3u8\"\n\
        #EXT-X-MEDIA:TYPE=AUDIO,URI=\"two.m3u8\"\n\
        #EXT-X-MEDIA:TYPE=SUBTITLES,URI=\"three.m3u8\"\n\
        #EXT-X-MEDIA:TYPE=AUDIO,URI=\"open\n";
    let r = select_renditions("http://h/x.m3u8", text).ok().unwrap();
    assert_eq!(r.audio_url.as_deref(), Some("http://h/two.m3u8"));
}

#[test]
fn text_without_the_mark_is_no_playlist() {
    let e = select_renditions("http://h/x.m3u8", "<html></html>").err().unwrap();
    assert_eq!(e.message(), "Invalid M3U8 file");
}

#[test]
fn media_playlist_is_read() {
    assert!(!is_live(MEDIA));
    assert!(is_fragmented(MEDIA));
    let p = read_media_playlist("http://h/v/x.m3u8", MEDIA);
    assert!(!p.is_live);
    assert!(!p.is_ts);
    assert_eq!(p.init_url.as_deref(), Some("http://h/v/init.mp4"));
    let urls: Vec<&str> = p.segments.iter().map(|s| s.url.as_str()).collect();
    assert_eq!(
        urls,
        vec!["http://h/v/seg0.m4s", "http://h/v/seg1.m4s", "http://h/v/seg2.m4s"]
    );
    let places: Vec<usize> = p.segments.iter().map(|s| s.index).collect();
    assert_eq!(places, vec![0, 1, 2]);
}

#[test]
fn durations_are_read_as_they_are_written() {
    assert!(can_read_durations(MEDIA));
    assert_eq!(duration_texts(MEDIA), vec!["4.5", "3", "2.25", "1"]);
    assert_eq!(recorded_duration_texts(MEDIA), vec!["4.5", "3", "2.25", "1"]);
    let odd = "#EXTINF 7,\nx\n#EXTINF:8,\ny\n";
    assert_eq!(duration_texts(odd), vec!["7", "8"]);
    assert_eq!(recorded_duration_texts(odd), vec!["8"]);
}

#[test]
fn entries_go_with_the_line_behind_them() {
    let read = media_entries(MEDIA);
    assert!(read.complete);
    let e = read.entries;
    let got: Vec<(&str, &str)> =
        e.iter().map(|e| (e.duration.as_str(), e.segment.as_str())).collect();
    assert_eq!(
        got,
        vec![
            ("4.5", "seg0.m4s"),
            ("3", "seg1.m4s"),
            ("2.25", "#EXT-X-DISCONTINUITY"),
            ("1", "seg2.m4s")
        ]
    );
    assert_eq!(media_entries("#EXTINF:1,").entries.len(), 0);
    let cut = media_entries("#EXTINF:1,\na.ts\n#EXTINF\nb.ts\n#EXTINF:2,\nc.ts\n");
    assert!(!cut.complete);
    assert_eq!(cut.entries.len(), 1);
    assert_eq!(cut.entries[0].segment, "a.ts");
}

#[test]
fn tag_without_a_separator_is_seen() {
    assert!(!can_read_durations("#EXTINF\nseg.ts\n"));
    assert!(!can_read_durations("#EXTINF\u{e9}1,\nseg.ts\n"));
    assert!(can_read_durations("#EXTINF:"));
}

#[test]
fn init_segment_is_absent_unclosed_or_there() {
    assert!(matches!(init_segment("http://h/x", "#EXTM3U\n"), InitSegment::Absent));
    assert!(matches!(
        init_segment("http://h/x", "#EXT-X-MAP:URI=\"abc\n"),
        InitSegment::Unclosed
    ));
    match init_segment("http://h/x", "#EXT-X-MAP:URI=\"abc\",BYTERANGE=1\n") {
        InitSegment::At(url) => assert_eq!(url, "http://h/abc"),
        _ => panic!("there is one"),
    }
}

#[test]
fn live_playlist_has_no_end() {
    assert!(is_live("#EXTM3U\n#EXTINF:1,\na.ts\n"));
    assert!(!is_fragmented("#EXTM3U\n#EXTINF:1,\na.ts\n"));
}

#[test]
fn sources_are_told_apart() {
    assert_eq!(download_kind("https://a/b.m3u8?x=1"), DownloadKind::Hls);
    assert_eq!(download_kind("/home/u/list.m3u8"), DownloadKind::Hls);
    assert_eq!(download_kind("http://a/b.mp4"), DownloadKind::Direct);
    assert_eq!(download_kind("ftp://a/b.mp4"), DownloadKind::Direct);
    assert_eq!(download_kind("/home/u/b.mp4"), DownloadKind::Local);
}

#[test]
fn average_bandwidth_does_not_count() {
    let text = "#EXTM3U\n#EXT-X-STREAM-INF:AVERAGE-BANDWIDTH=900,BANDWIDTH=1000\na.m3u8\n\
        #EXT-X-STREAM-INF:AVERAGE-BANDWIDTH=100,BANDWIDTH=2000\nb.m3u8\n";
    let r = select_renditions("http://h/m.m3u8", text).ok().unwrap();
    assert_eq!(r.video_url, "http://h/b.m3u8");
    assert_eq!(r.audio_url, None);
    let text = "#EXTM3U\n#EXT-X-STREAM-INF:BANDWIDTH=1000,AVERAGE-BANDWIDTH=9000\na.m3u8\n\
        #EXT-X-STREAM-INF:BANDWIDTH=2000,AVERAGE-BANDWIDTH=1500\nb.m3u8\n";
    let r = select_renditions("http://h/m.m3u8", text).ok().unwrap();
    assert_eq!(r.video_url, "http://h/b.m3u8");
}

#[test]
fn bandwidth_stands_behind_anything_but_a_name() {
    for mark in ["\t", ";", "\"", "a", "_"] {
        let text = format!(
            "#EXTM3U\n#EXT-X-STREAM-INF:X=1{}BANDWIDTH=3000\na.m3u8\n\
             #EXT-X-STREAM-INF:BANDWIDTH=2000\nb.m3u8\n",
            mark
        );
        let r = select_renditions("http://h/m.m3u8", &text).ok().unwrap();
        assert_eq!(r.video_url, "http://h/a.m3u8");
    }
}

#[test]
fn average_counts_where_there_is_nothing_else() {
    let text = "#EXTM3U\n#EXT-X-STREAM-INF:BANDWIDTH=1000\na.m3u8\n\
        #EXT-X-STREAM-INF:AVERAGE-BANDWIDTH=5000\nb.m3u8\n";
    let r = select_renditions("http://h/m.m3u8", text).ok().unwrap();
    assert_eq!(r.video_url, "http://h/b.m3u8");
}
