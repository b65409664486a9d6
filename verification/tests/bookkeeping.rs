use abi_yt_downloader::downloads::{
    batch_requests, enters_history, tracked_download, with_default_output, ActiveDownloads,
};
use abi_yt_downloader::engine::{finished_download, started_download};
use abi_yt_downloader::history::{DownloadHistory, HISTORY_LIMIT};
use abi_yt_downloader::models::{BatchDownloadRequest, Download, DownloadRequest, DownloadStatus};
use abi_yt_downloader::progress::DownloadProgress;
use abi_yt_downloader::settings::{get_download_folder, QualityPreference, Settings, VideoFormat};

fn request(url: &str, output: &str) -> DownloadRequest {
    DownloadRequest {
        url: url.to_string(),
        format: "mp4".to_string(),
        quality: "high".to_string(),
        output_path: output.to_string(),
    }
}

fn done(id: &str, bytes: u64) -> Download {
    let mut d = started_download(&request("u", "/o"), id.to_string());
    d.downloaded_bytes = bytes;
    finished_download(d, false, true)
}

fn progress(id: &str, bytes: u64) -> DownloadProgress {
    DownloadProgress {
        id: id.to_string(),
        downloaded_bytes: bytes,
        total_bytes: 100,
        speed: 5,
        progress_bits: 12.5f32.to_bits(),
        eta_seconds: 9,
    }
}

#[test]
fn empty_output_folder_takes_the_default() {
    let r = with_default_output(request("u", ""), "/home/me/Downloads");
    assert_eq!(r.output_path, "/home/me/Downloads");
    let r = with_default_output(request("u", "/x"), "/home/me/Downloads");
    assert_eq!(r.output_path, "/x");
}

#[test]
fn batch_splits_into_requests() {
    let b = BatchDownloadRequest {
        urls: vec!["a".to_string(), "b".to_string()],
        format: "webm".to_string(),
        quality: "low".to_string(),
        output_path: String::new(),
    };
    let rs = batch_requests(&b, "/dl");
    assert_eq!(rs.len(), 2);
    assert_eq!(rs[0].url, "a");
    assert_eq!(rs[1].url, "b");
    assert_eq!(rs[1].format, "webm");
    assert_eq!(rs[1].quality, "low");
    assert_eq!(rs[0].output_path, "/dl");
    let b2 = BatchDownloadRequest { output_path: "/mine".to_string(), ..b };
    assert_eq!(batch_requests(&b2, "/dl")[1].output_path, "/mine");
}

#[test]
fn tracked_download_carries_the_id() {
    let d = tracked_download(&request("u", "/o"), "fixed".to_string());
    assert_eq!(d.id, "fixed");
    assert_eq!(d.status, DownloadStatus::Pending);
    assert_eq!(d.title, "");
    assert_eq!(d.filepath, "/o");
}

#[test]
fn active_downloads_lifecycle() {
    let mut active = ActiveDownloads::new();
    let (req, id) = active.begin(request("u1", ""), "/default").unwrap();
    assert_eq!(req.output_path, "/default");
    assert_eq!(id.len(), 36);
    let (_, id2) = active.begin(request("u2", "/o"), "/default").unwrap();
    assert_eq!(active.downloads.len(), 2);
    assert_eq!(active.downloads[0].id, id);
    assert_eq!(active.downloads[1].url, "u2");

    active.apply_progress(&progress(&id2, 40));
    assert_eq!(active.downloads[1].downloaded_bytes, 40);
    assert_eq!(active.downloads[1].eta_seconds, 9);
    assert_eq!(f32::from_bits(active.downloads[1].progress_bits), 12.5);
    assert_eq!(active.downloads[0].downloaded_bytes, 0);

    active.apply_progress(&progress("nobody", 77));
    assert_eq!(active.downloads[0].downloaded_bytes, 0);
    assert_eq!(active.downloads[1].downloaded_bytes, 40);

    let mut finished = active.downloads[1].clone();
    finished.status = DownloadStatus::Completed;
    assert!(active.finish(&finished));
    assert_eq!(active.downloads.len(), 1);
    assert_eq!(active.downloads[0].id, id);

    let mut failed = active.downloads[0].clone();
    failed.status = DownloadStatus::Failed;
    assert!(!active.finish(&failed));
    assert!(active.downloads.is_empty());
}

#[test]
fn progress_goes_to_the_first_download_with_the_id() {
    let mut active = ActiveDownloads::new();
    active.track(tracked_download(&request("a", "/o"), "same".to_string()));
    active.track(tracked_download(&request("b", "/o"), "same".to_string()));
    active.apply_progress(&progress("same", 3));
    assert_eq!(active.downloads[0].downloaded_bytes, 3);
    assert_eq!(active.downloads[1].downloaded_bytes, 0);
    active.release("same");
    assert!(active.downloads.is_empty());
}

#[test]
fn only_completed_downloads_enter_history() {
    assert!(enters_history(&done("x", 1)));
    let mut d = done("x", 1);
    d.status = DownloadStatus::Cancelled;
    assert!(!enters_history(&d));
}

#[test]
fn history_add_puts_newest_first_and_counts() {
    let mut h = DownloadHistory::default();
    h.add(&done("a", 10));
    h.add(&done("b", 5));
    assert_eq!(h.downloads.len(), 2);
    assert_eq!(h.downloads[0].id, "b");
    assert_eq!(h.downloads[1].id, "a");
    assert_eq!(h.downloads[0].file_size, 5);
    assert_eq!(h.downloads[0].filepath, "/o");
    assert_eq!(h.total_downloads, 2);
    assert_eq!(h.total_bytes_downloaded, 15);
}

#[test]
fn history_keeps_the_newest_thousand() {
    let mut h = DownloadHistory::default();
    for i in 0..(HISTORY_LIMIT + 5) {
        h.add(&done(&format!("id{}", i), 1));
    }
    assert_eq!(h.downloads.len(), HISTORY_LIMIT);
    assert_eq!(h.downloads[0].id, format!("id{}", HISTORY_LIMIT + 4));
    assert_eq!(h.downloads[HISTORY_LIMIT - 1].id, "id5");
    assert_eq!(h.total_downloads, (HISTORY_LIMIT + 5) as u64);
}

#[test]
fn history_overflow_is_detected() {
    let mut h = DownloadHistory::default();
    assert!(h.can_add(&done("a", u64::MAX)));
    h.total_bytes_downloaded = 1;
    assert!(!h.can_add(&done("a", u64::MAX)));
    h.total_bytes_downloaded = 0;
    h.total_downloads = u64::MAX;
    assert!(!h.can_add(&done("a", 0)));
}

#[test]
fn history_remove_and_clear() {
    let mut h = DownloadHistory::default();
    h.add(&done("a", 1));
    h.add(&done("b", 2));
    h.add(&done("a", 3));
    h.remove("a");
    assert_eq!(h.downloads.len(), 2);
    assert_eq!(h.downloads[0].id, "b");
    assert_eq!(h.downloads[1].id, "a");
    assert_eq!(h.total_downloads, 3);
    h.remove("zzz");
    assert_eq!(h.downloads.len(), 2);
    h.clear();
    assert!(h.downloads.is_empty());
    assert_eq!(h.total_downloads, 0);
    assert_eq!(h.total_bytes_downloaded, 0);
}

#[test]
fn settings_defaults() {
    let s = Settings::defaults_in("/dl".to_string());
    assert_eq!(s.download_path, "/dl");
    assert_eq!(s.parallel_downloads, 2);
    assert_eq!(s.max_retries, 3);
    assert!(!s.auto_convert);
    assert_eq!(s.preferred_format, VideoFormat::MP4);
    assert!(matches!(s.quality_preference, QualityPreference::High));
    assert!(s.skip_existing);
    assert_eq!(s.filename_template, "%(title)s.%(ext)s");
    assert_eq!(s.theme, "dark");
    assert_eq!(s.language, "en");
    let d = Settings::defaults_for(Some("/home/u/Downloads".to_string()));
    assert_eq!(d.download_path, "/home/u/Downloads");
    assert_eq!(d.filename_template, "%(title)s.%(ext)s");
    let none = Settings::defaults_for(None);
    assert_eq!(none.download_path, ".");
    assert_eq!(none.parallel_downloads, 2);
}

#[test]
fn download_folder_fallback() {
    assert_eq!(get_download_folder(None), ".");
    assert_eq!(get_download_folder(Some("/x".to_string())), "/x");
}

#[test]
fn removing_a_just_recorded_download_restores_the_entries() {
    let mut h = DownloadHistory::default();
    h.add(&done("a", 1));
    h.add(&done("b", 2));
    let before: Vec<String> = h.downloads.iter().map(|e| e.id.clone()).collect();
    h.add(&done("a", 4));
    h.remove("a");
    let after: Vec<String> = h.downloads.iter().map(|e| e.id.clone()).collect();
    assert_eq!(before, after);
    assert_eq!(h.total_downloads, 3);
    assert_eq!(h.total_bytes_downloaded, 7);
}

#[test]
fn releasing_a_freshly_tracked_download_restores_the_list() {
    let mut active = ActiveDownloads::new();
    active.track(tracked_download(&request("a", "/o"), "one".to_string()));
    active.track(tracked_download(&request("b", "/o"), "two".to_string()));
    let (_, id) = active.begin(request("c", "/o"), "/d").unwrap();
    active.apply_progress(&progress(&id, 50));
    assert_eq!(active.downloads[2].downloaded_bytes, 50);
    active.release(&id);
    let ids: Vec<&str> = active.downloads.iter().map(|d| d.id.as_str()).collect();
    assert_eq!(ids, vec!["one", "two"]);
}
