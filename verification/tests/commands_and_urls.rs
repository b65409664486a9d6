use abi_yt_downloader::engine::{
    contains_path_separator, download_args, download_command, finished_download, format_selector,
    output_template, permit_count, should_retry, started_download, Converter, DownloadOptions,
};
use abi_yt_downloader::settings::Settings;
use abi_yt_downloader::models::{Download, DownloadRequest, DownloadStatus, PERCENT_FULL_BITS};
use abi_yt_downloader::urls::{any_match, check_video_url, is_valid_youtube_url};

fn options(template: &str, skip_existing: bool) -> DownloadOptions {
    DownloadOptions { filename_template: template.to_string(), skip_existing, max_retries: 3 }
}

fn request(format: &str, quality: &str) -> DownloadRequest {
    DownloadRequest {
        url: "https://youtu.be/abc".to_string(),
        format: format.to_string(),
        quality: quality.to_string(),
        output_path: "/tmp/out".to_string(),
    }
}

#[test]
fn accepted_url_shapes() {
    assert!(is_valid_youtube_url("https://www.youtube.com/watch?v=dQw4w9WgXcQ"));
    assert!(is_valid_youtube_url("youtube.com/watch?v=a-b_c"));
    assert!(is_valid_youtube_url("https://youtu.be/dQw4w9WgXcQ"));
    assert!(is_valid_youtube_url("https://www.youtube.com/shorts/abc"));
    assert!(is_valid_youtube_url("https://youtube.com/playlist?list=PL123"));
    assert!(is_valid_youtube_url("https://m.youtube.com/watch?v=abc"));
    assert!(is_valid_youtube_url("see https://youtu.be/x please"));
}

#[test]
fn rejected_url_shapes() {
    assert!(!is_valid_youtube_url("https://vimeo.com/123"));
    assert!(!is_valid_youtube_url("https://www.youtube.com/"));
    assert!(!is_valid_youtube_url("https://www.youtube.com/watch?v="));
    assert!(!is_valid_youtube_url(""));
}

#[test]
fn url_check_error_message() {
    assert!(check_video_url("https://youtu.be/abc").is_ok());
    assert_eq!(check_video_url("ftp://example.org").unwrap_err(), "Invalid YouTube URL");
}

#[test]
fn any_match_needs_a_true() {
    assert!(!any_match(&vec![None, Some(false)]));
    assert!(any_match(&vec![None, Some(false), Some(true)]));
    assert!(!any_match(&vec![]));
}

#[test]
fn selectors_per_quality() {
    assert_eq!(format_selector("highest", "webm"), "bestvideo+bestaudio/best");
    assert_eq!(format_selector("highest", "mp4"), "bestvideo+bestaudio/best");
    assert_eq!(
        format_selector("high", "mp4"),
        "bestvideo[height<=1080][ext=mp4]+bestaudio[ext=m4a]/best[height<=1080][ext=mp4]"
    );
    assert_eq!(format_selector("high", "mkv"), "bestvideo[height<=1080]+bestaudio/best[height<=1080]");
    assert_eq!(
        format_selector("medium", "mp4"),
        "bestvideo[height<=720][ext=mp4]+bestaudio[ext=m4a]/best[height<=720][ext=mp4]"
    );
    assert_eq!(format_selector("medium", "webm"), "bestvideo[height<=720]+bestaudio/best[height<=720]");
    assert_eq!(
        format_selector("low", "mp4"),
        "bestvideo[height<=480][ext=mp4]+bestaudio[ext=m4a]/best[height<=480][ext=mp4]"
    );
    assert_eq!(format_selector("low", "mp3"), "bestvideo[height<=480]+bestaudio/best[height<=480]");
    assert_eq!(format_selector("137+140", "mp4"), "137+140");
}

#[test]
fn download_arguments_for_video() {
    let args = download_args(&request("mp4", "high"), "/tmp/out/%(title)s.%(ext)s", true);
    assert_eq!(args.len(), 11);
    assert_eq!(args[0], "--newline");
    assert_eq!(args[3], "%(progress._percent_str)s|%(progress._speed_str)s|%(progress._eta_str)s|%(progress.downloaded_bytes)s|%(progress.total_bytes)s");
    assert_eq!(args[4], "-f");
    assert_eq!(args[6], "-o");
    assert_eq!(args[7], "/tmp/out/%(title)s.%(ext)s");
    assert_eq!(args[10], "https://youtu.be/abc");
}

#[test]
fn download_arguments_for_audio() {
    let args = download_args(&request("mp3", "highest"), "t", true);
    assert_eq!(args.len(), 14);
    assert_eq!(args[11], "-x");
    assert_eq!(args[12], "--audio-format");
    assert_eq!(args[13], "mp3");
    assert_eq!(download_args(&request("m4a", "low"), "t", true)[13], "m4a");
}

#[test]
fn existing_files_are_overwritten_only_when_not_skipped() {
    let keep = download_args(&request("mp4", "high"), "t", true);
    assert!(!keep.iter().any(|a| a == "--force-overwrites"));
    let video = download_args(&request("mp4", "high"), "t", false);
    assert_eq!(video.len(), 12);
    assert_eq!(video[11], "--force-overwrites");
    let audio = download_args(&request("mp3", "high"), "t", false);
    assert_eq!(audio.len(), 15);
    assert_eq!(audio[13], "mp3");
    assert_eq!(audio[14], "--force-overwrites");
}

#[test]
fn download_command_joins_the_folder() {
    let args = download_command(&request("webm", "low"), &options("%(title)s.%(ext)s", true));
    assert_eq!(args[6], "-o");
    assert_eq!(args[7], "/tmp/out/%(title)s.%(ext)s");
    assert_eq!(args[10], "https://youtu.be/abc");
    assert_eq!(args.len(), 11);
    let mut r = request("webm", "low");
    r.output_path = String::new();
    assert_eq!(download_command(&r, &options("%(title)s.%(ext)s", true))[7], "%(title)s.%(ext)s");
}

#[test]
fn download_command_uses_the_filename_template() {
    let args = download_command(&request("mp4", "high"), &options("%(uploader)s - %(id)s.%(ext)s", false));
    assert_eq!(args[7], "/tmp/out/%(uploader)s - %(id)s.%(ext)s");
    assert_eq!(args.last().unwrap(), "--force-overwrites");
    let defaults = Settings::defaults_in("/dl".to_string());
    let from_settings = DownloadOptions::from_settings(&defaults);
    assert_eq!(from_settings.filename_template, "%(title)s.%(ext)s");
    assert!(from_settings.skip_existing);
    assert_eq!(from_settings.max_retries, 3);
}

#[test]
fn output_paths_join_the_folder() {
    assert_eq!(output_template("/tmp/out", "%(title)s.%(ext)s"), "/tmp/out/%(title)s.%(ext)s");
    assert_eq!(output_template("/tmp/out/", "x.%(ext)s"), "/tmp/out/x.%(ext)s");
    assert_eq!(output_template("", "x.%(ext)s"), "x.%(ext)s");
    assert_eq!(output_template("/tmp/out", "/abs/x.%(ext)s"), "/abs/x.%(ext)s");
}

#[test]
fn failed_downloads_are_retried_up_to_the_limit() {
    assert!(should_retry(0, 3, false, false));
    assert!(should_retry(2, 3, false, false));
    assert!(!should_retry(3, 3, false, false));
    assert!(!should_retry(0, 0, false, false));
    assert!(!should_retry(0, 3, true, false));
    assert!(!should_retry(0, 3, false, true));
    let mut runs = 1;
    let mut retries_done = 0;
    while should_retry(retries_done, 3, false, false) {
        retries_done += 1;
        runs += 1;
    }
    assert_eq!(runs, 4);
}

#[test]
fn engine_lifecycle_statuses() {
    let d = started_download(&request("mp4", "high"), "id-1".to_string());
    assert_eq!(d.id, "id-1");
    assert_eq!(d.status, DownloadStatus::Downloading);
    assert_eq!(d.filepath, "/tmp/out");
    let c = finished_download(d.clone(), true, true);
    assert_eq!(c.status, DownloadStatus::Cancelled);
    assert_eq!(c.progress_bits, 0);
    let ok = finished_download(d.clone(), false, true);
    assert_eq!(ok.status, DownloadStatus::Completed);
    assert_eq!(f32::from_bits(ok.progress_bits), 100.0);
    assert_eq!(ok.progress_bits, PERCENT_FULL_BITS);
    let bad = finished_download(d, false, false);
    assert_eq!(bad.status, DownloadStatus::Failed);
    assert_eq!(bad.error.as_deref(), Some("Download failed"));
}

#[test]
fn new_download_defaults() {
    let d = Download::new(
        "u".to_string(),
        "t".to_string(),
        "th".to_string(),
        "mp4".to_string(),
        "high".to_string(),
        "/p".to_string(),
    )
    .unwrap();
    assert_eq!(d.id.len(), 36);
    assert_eq!(d.id.as_bytes()[8], b'-');
    assert_eq!(d.id.as_bytes()[14], b'4');
    assert!(matches!(d.id.as_bytes()[19], b'8' | b'9' | b'a' | b'b'));
    assert_eq!(d.url, "u");
    assert_eq!(d.filepath, "/p");
    assert_eq!(d.status, DownloadStatus::Pending);
    assert_eq!(d.progress_bits, 0);
    assert!(d.error.is_none());
    assert!(d.completed_at.is_none());
    let e = Download::new(String::new(), String::new(), String::new(), String::new(), String::new(), String::new())
        .unwrap();
    assert_ne!(d.id, e.id);
}

#[test]
fn update_progress_computes_eta() {
    let mut d = started_download(&request("mp4", "high"), "x".to_string());
    d.update_progress(1000, 5000, 100, 20.0f32.to_bits());
    assert_eq!(d.eta_seconds, 40);
    assert_eq!(f32::from_bits(d.progress_bits), 20.0);
    d.update_progress(6000, 5000, 100, 120.0f32.to_bits());
    assert_eq!(d.eta_seconds, 0);
    d.update_progress(10, 0, 0, 55.0f32.to_bits());
    assert_eq!(d.eta_seconds, 0);
    assert_eq!(f32::from_bits(d.progress_bits), 120.0);
    assert_eq!(d.total_bytes, 0);
}

#[test]
fn permits_between_one_and_ten() {
    assert_eq!(permit_count(0), 1);
    assert_eq!(permit_count(1), 1);
    assert_eq!(permit_count(4), 4);
    assert_eq!(permit_count(10), 10);
    assert_eq!(permit_count(11), 10);
    assert_eq!(permit_count(usize::MAX), 10);
}

#[test]
fn audio_codecs() {
    assert_eq!(Converter::get_audio_codec("mp3"), "libmp3lame");
    assert_eq!(Converter::get_audio_codec("m4a"), "aac");
    assert_eq!(Converter::get_audio_codec("opus"), "libopus");
    assert_eq!(Converter::get_audio_codec("wav"), "pcm_s16le");
    assert_eq!(Converter::get_audio_codec("flac"), "flac");
    assert_eq!(Converter::get_audio_codec("mkv"), "copy");
}

#[test]
fn converter_arguments_and_output() {
    let c = Converter::new();
    assert_eq!(
        c.convert_args("in.webm", "mp3", "out.mp3"),
        vec!["-i", "in.webm", "-y", "-vn", "-acodec", "libmp3lame", "out.mp3"]
    );
    assert_eq!(
        c.merge_args("v.mp4", "a.m4a", "o.mp4"),
        vec!["-i", "v.mp4", "-i", "a.m4a", "-c", "copy", "-y", "o.mp4"]
    );
    assert_eq!(c.conversion_output("in.webm", "mp3", Some("x.mp3")).as_deref(), Some("x.mp3"));
    assert_eq!(c.conversion_output("/d/in.webm", "mp3", None).as_deref(), Some("/d/in.mp3"));
    assert_eq!(c.conversion_output("/d/in", "m4a", None).as_deref(), Some("/d/in.m4a"));
    assert_eq!(c.conversion_output("/d/in.webm", "a/b", None), None);
    assert_eq!(c.conversion_output("/d/in.webm", "a/b", Some("o.mp3")).as_deref(), Some("o.mp3"));
    assert!(contains_path_separator("x/y"));
    assert!(!contains_path_separator("mp3"));
}
