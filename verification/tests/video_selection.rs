use abi_yt_downloader::json::parse_video_json;
use abi_yt_downloader::video::{
    quality_from_format, FormatJson, JsonScalar, Video, VideoInfo, VideoJson, VideoQuality,
    VideoResolver,
};

fn s(t: &str) -> JsonScalar {
    JsonScalar::Str(t.to_string())
}

fn format(id: JsonScalar, resolution: JsonScalar, vcodec: JsonScalar, acodec: JsonScalar) -> FormatJson {
    FormatJson {
        format_id: id,
        format_note: JsonScalar::Null,
        ext: JsonScalar::Null,
        resolution,
        fps: JsonScalar::Null,
        vcodec,
        acodec,
        filesize: JsonScalar::Null,
        filesize_approx: JsonScalar::Null,
    }
}

fn video_json(formats: Vec<FormatJson>) -> VideoJson {
    VideoJson {
        id: s("abc123"),
        title: s("A title"),
        thumbnail: JsonScalar::Null,
        thumbnails_first_url: s("https://img/0.jpg"),
        duration: JsonScalar::UInt(4294967296 + 61),
        uploader: JsonScalar::Null,
        channel: s("The Channel"),
        view_count: JsonScalar::UInt(42),
        upload_date: s("20240101"),
        description: JsonScalar::Other,
        formats,
    }
}

fn quality(id: &str, resolution: &str, audio: bool) -> VideoQuality {
    VideoQuality {
        itag: 0,
        format_id: id.to_string(),
        format_note: String::new(),
        extension: "mp4".to_string(),
        resolution: resolution.to_string(),
        fps: None,
        vcodec: "none".to_string(),
        acodec: "none".to_string(),
        filesize: None,
        is_video_only: !audio,
        is_audio_only: audio,
    }
}

#[test]
fn resolution_height_is_the_part_after_the_last_x() {
    let r = VideoResolver::new();
    assert_eq!(r.parse_resolution("1920x1080"), 1080);
    assert_eq!(r.parse_resolution("1280x720 "), 720);
    assert_eq!(r.parse_resolution("audio only"), 0);
    assert_eq!(r.parse_resolution("unknown"), 0);
    assert_eq!(r.parse_resolution("x"), 0);
    assert_eq!(r.parse_resolution("480"), 480);
    assert_eq!(r.parse_resolution("1x2x3"), 3);
}

#[test]
fn quality_fields_and_fallbacks() {
    let mut f = format(s("137"), s("1920x1080"), s("avc1"), s("none"));
    f.fps = JsonScalar::UInt(30);
    f.filesize_approx = JsonScalar::UInt(999);
    let q = quality_from_format(&f);
    assert_eq!(q.itag, 137);
    assert_eq!(q.format_id, "137");
    assert_eq!(q.format_note, "");
    assert_eq!(q.extension, "mp4");
    assert_eq!(q.fps, Some(30));
    assert_eq!(q.filesize, Some(999));
    assert!(q.is_video_only);
    assert!(!q.is_audio_only);

    let g = format(s("hls-720p"), JsonScalar::Null, JsonScalar::Null, s("mp4a"));
    let q = quality_from_format(&g);
    assert_eq!(q.itag, 0);
    assert_eq!(q.resolution, "unknown");
    assert_eq!(q.vcodec, "none");
    assert!(q.is_audio_only);
    assert!(!q.is_video_only);
}

#[test]
fn filesize_takes_the_first_present_field() {
    let mut f = format(s("1"), JsonScalar::Null, JsonScalar::Null, JsonScalar::Null);
    f.filesize = JsonScalar::Other;
    f.filesize_approx = JsonScalar::UInt(5);
    assert_eq!(quality_from_format(&f).filesize, None);
    f.filesize = JsonScalar::UInt(7);
    assert_eq!(quality_from_format(&f).filesize, Some(7));
}

#[test]
fn qualities_sorted_highest_first_stably_unknown_dropped() {
    let r = VideoResolver::new();
    let json = video_json(vec![
        format(s("a"), s("640x360"), s("vp9"), s("none")),
        format(JsonScalar::Null, s("3840x2160"), s("vp9"), s("none")),
        format(s("b"), s("1920x1080"), s("vp9"), s("none")),
        format(s("c"), s("audio only"), s("none"), s("opus")),
        format(s("d"), s("1280x1080"), s("avc1"), s("none")),
        format(s("unknown"), s("9999x9999"), s("vp9"), s("none")),
    ]);
    let qs = r.parse_qualities(&json);
    let ids: Vec<&str> = qs.iter().map(|q| q.format_id.as_str()).collect();
    assert_eq!(ids, vec!["b", "d", "a", "c"]);
}

#[test]
fn video_fields_and_fallbacks() {
    let r = VideoResolver::new();
    let v = r.parse_video_info(&video_json(vec![]), "https://youtu.be/x");
    assert_eq!(v.id, "abc123");
    assert_eq!(v.url, "https://youtu.be/x");
    assert_eq!(v.title, "A title");
    assert_eq!(v.thumbnail, "https://img/0.jpg");
    assert_eq!(v.duration, 61);
    assert_eq!(v.channel, "The Channel");
    assert_eq!(v.view_count, Some(42));
    assert_eq!(v.upload_date.as_deref(), Some("20240101"));
    assert_eq!(v.description, None);

    let mut bare = video_json(vec![]);
    bare.id = JsonScalar::Null;
    bare.title = JsonScalar::UInt(3);
    bare.thumbnails_first_url = JsonScalar::Null;
    bare.duration = JsonScalar::Other;
    bare.uploader = s("Uploader");
    let v = r.parse_video_info(&bare, "u");
    assert_eq!(v.id, "unknown");
    assert_eq!(v.title, "Unknown Title");
    assert_eq!(v.thumbnail, "");
    assert_eq!(v.duration, 0);
    assert_eq!(v.channel, "Uploader");

    bare.uploader = JsonScalar::Other;
    assert_eq!(r.parse_video_info(&bare, "u").channel, "Unknown");
}

fn video() -> Video {
    Video {
        id: "v".to_string(),
        url: "u".to_string(),
        title: "t".to_string(),
        thumbnail: String::new(),
        duration: 1,
        channel: "c".to_string(),
        view_count: None,
        upload_date: None,
        description: None,
    }
}

#[test]
fn info_splits_audio_only_and_picks_best() {
    let qs = vec![
        quality("1", "1920x1080", false),
        quality("2", "audio only", true),
        quality("3", "1280x720", false),
    ];
    let info = VideoInfo::new(video(), qs);
    assert_eq!(info.qualities.len(), 3);
    assert_eq!(info.audio_only_qualities.len(), 1);
    assert_eq!(info.audio_only_qualities[0].format_id, "2");
    let vids: Vec<&str> = info.video_qualities.iter().map(|q| q.format_id.as_str()).collect();
    assert_eq!(vids, vec!["1", "3"]);
    assert_eq!(info.best_quality.unwrap().format_id, "1");
}

#[test]
fn info_without_video_qualities_has_no_best() {
    let info = VideoInfo::new(video(), vec![quality("2", "audio only", true)]);
    assert!(info.best_quality.is_none());
    assert!(info.video_qualities.is_empty());
}

#[test]
fn info_from_json_combines_both() {
    let r = VideoResolver::new();
    let json = video_json(vec![
        format(s("a"), s("640x360"), s("vp9"), s("none")),
        format(s("b"), s("1920x1080"), s("vp9"), s("mp4a")),
        format(s("c"), s("audio only"), s("none"), s("opus")),
    ]);
    let info = r.video_info_from_json(&json, "https://youtu.be/x");
    assert_eq!(info.video.id, "abc123");
    assert_eq!(info.qualities.len(), 3);
    assert_eq!(info.best_quality.unwrap().format_id, "b");
    assert_eq!(info.audio_only_qualities[0].format_id, "c");
}

#[test]
fn sorting_an_already_sorted_list_changes_nothing() {
    let qs = vec![
        quality("b", "1920x1080", false),
        quality("d", "1280x1080", false),
        quality("a", "640x360", false),
        quality("c", "audio only", true),
    ];
    let again = abi_yt_downloader::video::sort_by_resolution(&qs);
    let ids: Vec<&str> = again.iter().map(|q| q.format_id.as_str()).collect();
    assert_eq!(ids, vec!["b", "d", "a", "c"]);
    let shuffled = vec![qs[2].clone(), qs[3].clone(), qs[0].clone(), qs[1].clone()];
    let sorted = abi_yt_downloader::video::sort_by_resolution(&shuffled);
    let ids: Vec<&str> = sorted.iter().map(|q| q.format_id.as_str()).collect();
    assert_eq!(ids, vec!["b", "d", "a", "c"]);
}

const TOOL_OUTPUT: &str = r#"{
  "id": "dQw4w9WgXcQ",
  "title": "Never Gonna",
  "thumbnails": [{"url": "https://i.ytimg.com/t0.jpg"}, {"url": "https://i.ytimg.com/t1.jpg"}],
  "duration": 213,
  "uploader": null,
  "channel": "Rick",
  "view_count": 1500000000,
  "upload_date": "20091025",
  "formats": [
    {"format_id": "140", "ext": "m4a", "resolution": "audio only", "vcodec": "none", "acodec": "mp4a.40.2", "filesize": 3433514},
    {"format_id": "137", "ext": "mp4", "resolution": "1920x1080", "fps": 25, "vcodec": "avc1", "acodec": "none", "filesize_approx": 80000000},
    {"ext": "mp4", "resolution": "640x360"},
    {"format_id": "18", "format_note": "360p", "ext": "mp4", "resolution": "640x360", "vcodec": "avc1", "acodec": "mp4a.40.2", "fps": 25.5}
  ]
}"#;

#[test]
fn tool_output_gives_every_field() {
    let info = VideoResolver::new()
        .video_info_from_output(TOOL_OUTPUT.as_bytes(), "https://youtu.be/dQw4w9WgXcQ")
        .unwrap();
    assert_eq!(info.video.id, "dQw4w9WgXcQ");
    assert_eq!(info.video.url, "https://youtu.be/dQw4w9WgXcQ");
    assert_eq!(info.video.title, "Never Gonna");
    assert_eq!(info.video.thumbnail, "https://i.ytimg.com/t0.jpg");
    assert_eq!(info.video.duration, 213);
    assert_eq!(info.video.channel, "Rick");
    assert_eq!(info.video.view_count, Some(1500000000));
    assert_eq!(info.video.upload_date.as_deref(), Some("20091025"));
    assert_eq!(info.video.description, None);
    let ids: Vec<&str> = info.qualities.iter().map(|q| q.format_id.as_str()).collect();
    assert_eq!(ids, vec!["137", "18", "140"]);
    assert_eq!(info.qualities[0].itag, 137);
    assert_eq!(info.qualities[0].fps, Some(25));
    assert_eq!(info.qualities[0].filesize, Some(80000000));
    assert!(info.qualities[0].is_video_only);
    assert_eq!(info.qualities[1].fps, None);
    assert_eq!(info.qualities[1].format_note, "360p");
    assert!(info.qualities[2].is_audio_only);
    assert_eq!(info.qualities[2].filesize, Some(3433514));
    assert_eq!(info.audio_only_qualities.len(), 1);
    assert_eq!(info.video_qualities.len(), 2);
    assert_eq!(info.best_quality.as_ref().unwrap().format_id, "137");
}

#[test]
fn tool_output_that_is_not_json_gives_nothing() {
    let r = VideoResolver::new();
    assert!(r.video_info_from_output(b"ERROR: not a video", "u").is_none());
    assert!(r.video_info_from_output(b"", "u").is_none());
    assert!(parse_video_json(b"{\"id\": ").is_none());
}

#[test]
fn tool_output_with_missing_fields_uses_the_fallbacks() {
    let info = VideoResolver::new().video_info_from_output(b"[1, 2]", "u").unwrap();
    assert_eq!(info.video.id, "unknown");
    assert_eq!(info.video.title, "Unknown Title");
    assert_eq!(info.video.thumbnail, "");
    assert_eq!(info.video.channel, "Unknown");
    assert_eq!(info.video.duration, 0);
    assert!(info.qualities.is_empty());
    assert!(info.best_quality.is_none());

    let j = parse_video_json(br#"{"thumbnail": "t", "uploader": "up", "channel": "ch", "formats": {"a": 1}, "duration": -5}"#)
        .unwrap();
    assert!(matches!(j.thumbnail, JsonScalar::Str(ref t) if t == "t"));
    assert!(matches!(j.uploader, JsonScalar::Str(ref t) if t == "up"));
    assert!(matches!(j.duration, JsonScalar::Other));
    assert!(matches!(j.id, JsonScalar::Null));
    assert!(j.formats.is_empty());
}

#[test]
fn many_formats_are_all_read() {
    let mut text = String::from("{\"formats\": [");
    for i in 0..12 {
        if i > 0 {
            text.push(',');
        }
        text.push_str(&format!("{{\"format_id\": \"{}\", \"resolution\": \"1x{}\"}}", i, i));
    }
    text.push_str("]}");
    let j = parse_video_json(text.as_bytes()).unwrap();
    assert_eq!(j.formats.len(), 12);
    assert!(matches!(j.formats[11].format_id, JsonScalar::Str(ref t) if t == "11"));
    let info = VideoResolver::new().video_info_from_json(&j, "u");
    assert_eq!(info.qualities[0].format_id, "11");
    assert_eq!(info.qualities[11].format_id, "0");
}

#[test]
fn first_thumbnail_is_read_only_from_an_array() {
    let j = parse_video_json(br#"{"thumbnails": {"0": {"url": "x"}}}"#).unwrap();
    assert!(matches!(j.thumbnails_first_url, JsonScalar::Null));
    let info = VideoResolver::new()
        .video_info_from_output(br#"{"thumbnails": {"0": {"url": "x"}}}"#, "u")
        .unwrap();
    assert_eq!(info.video.thumbnail, "");
    let j = parse_video_json(br#"{"thumbnails": [{"url": "y"}]}"#).unwrap();
    assert!(matches!(j.thumbnails_first_url, JsonScalar::Str(ref t) if t == "y"));
    let j = parse_video_json(br#"{"thumbnails": []}"#).unwrap();
    assert!(matches!(j.thumbnails_first_url, JsonScalar::Null));
}
