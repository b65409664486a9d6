//! Download records and requests.

use vstd::prelude::*;
use crate::clock::{Timestamp, now, fresh_id, is_v4_uuid_text};
use crate::progress::DownloadProgress;

verus! {

/// IEEE-754 single-precision bit pattern of 0.0.
pub const PERCENT_ZERO_BITS: u32 = 0u32;

/// IEEE-754 single-precision bit pattern of 100.0.
pub const PERCENT_FULL_BITS: u32 = 0x42C8_0000u32;

#[derive(Clone, Copy, Debug, PartialEq, Eq, Structural)]
pub enum DownloadStatus {
    Pending,
    Resolving,
    Downloading,
    Converting,
    Completed,
    Failed,
    Cancelled,
    Paused,
}

/// One download and its state.  `progress_bits` holds the completion
/// percentage as the bit pattern of an `f32`.
#[derive(Clone)]
pub struct Download {
    pub id: String,
    pub url: String,
    pub title: String,
    pub thumbnail: String,
    pub format: String,
    pub quality: String,
    pub filepath: String,
    pub status: DownloadStatus,
    pub progress_bits: u32,
    pub downloaded_bytes: u64,
    pub total_bytes: u64,
    pub speed: u64,
    pub eta_seconds: u64,
    pub error: Option<String>,
    pub created_at: Timestamp,
    pub completed_at: Option<Timestamp>,
}

/// What the user asks to download.
#[derive(Clone)]
pub struct DownloadRequest {
    pub url: String,
    pub format: String,
    pub quality: String,
    pub output_path: String,
}

/// Several URLs to download with the same format, quality and folder.
#[derive(Clone)]
pub struct BatchDownloadRequest {
    pub urls: Vec<String>,
    pub format: String,
    pub quality: String,
    pub output_path: String,
}

/// `d` is a pending download of `url` with the given details, no bytes
/// yet, no error, not completed.
pub open spec fn is_pending_download(
    d: Download,
    url: String,
    title: String,
    thumbnail: String,
    format: String,
    quality: String,
    filepath: String,
) -> bool {
    &&& d.url == url
    &&& d.title == title
    &&& d.thumbnail == thumbnail
    &&& d.format == format
    &&& d.quality == quality
    &&& d.filepath == filepath
    &&& d.status == DownloadStatus::Pending
    &&& d.progress_bits == PERCENT_ZERO_BITS
    &&& d.downloaded_bytes == 0
    &&& d.total_bytes == 0
    &&& d.speed == 0
    &&& d.eta_seconds == 0
    &&& d.error is None
    &&& d.completed_at is None
}

impl Download {
    /// A pending download under `id`, created now.
    pub fn with_id(
        id: String,
        url: String,
        title: String,
        thumbnail: String,
        format: String,
        quality: String,
        filepath: String,
    ) -> (r: Self)
        ensures
            r.id == id,
            is_pending_download(r, url, title, thumbnail, format, quality, filepath),
    {
        Download {
            id,
            url,
            title,
            thumbnail,
            format,
            quality,
            filepath,
            status: DownloadStatus::Pending,
            progress_bits: PERCENT_ZERO_BITS,
            downloaded_bytes: 0,
            total_bytes: 0,
            speed: 0,
            eta_seconds: 0,
            error: None,
            created_at: now(),
            completed_at: None,
        }
    }

    /// A fresh, pending download with a new random version-4 id, created
    /// now; `None` when the system's random source fails.
    pub fn new(
        url: String,
        title: String,
        thumbnail: String,
        format: String,
        quality: String,
        filepath: String,
    ) -> (r: Option<Self>)
        ensures
            r matches Some(d) ==> is_v4_uuid_text(d.id@) && is_pending_download(
                d,
                url,
                title,
                thumbnail,
                format,
                quality,
                filepath,
            ),
    {
        match fresh_id() {
            Some(id) => Some(Download::with_id(id, url, title, thumbnail, format, quality, filepath)),
            None => None,
        }
    }

    /// Records new byte counts and speed.  The percentage is replaced by
    /// `percent_bits` (the caller's `downloaded / total * 100`) when `total`
    /// is positive; the ETA is the remaining bytes over the speed when the
    /// speed is positive.
    pub fn update_progress(&mut self, downloaded: u64, total: u64, speed: u64, percent_bits: u32)
        ensures
            final(self).downloaded_bytes == downloaded,
            final(self).total_bytes == total,
            final(self).speed == speed,
            final(self).progress_bits == if total > 0 {
                percent_bits
            } else {
                old(self).progress_bits
            },
            final(self).eta_seconds == if speed > 0 {
                (if total >= downloaded {
                    (total - downloaded) as u64
                } else {
                    0u64
                }) / speed
            } else {
                old(self).eta_seconds
            },
            final(self).id == old(self).id,
            final(self).url == old(self).url,
            final(self).title == old(self).title,
            final(self).thumbnail == old(self).thumbnail,
            final(self).format == old(self).format,
            final(self).quality == old(self).quality,
            final(self).filepath == old(self).filepath,
            final(self).status == old(self).status,
            final(self).error == old(self).error,
            final(self).created_at == old(self).created_at,
            final(self).completed_at == old(self).completed_at,
    {
        self.downloaded_bytes = downloaded;
        self.total_bytes = total;
        self.speed = speed;
        if total > 0 {
            self.progress_bits = percent_bits;
        }
        if speed > 0 {
            self.eta_seconds = total.saturating_sub(downloaded) / speed;
        }
    }

    /// Copies the figures of a progress report into this download.
    pub fn apply_progress(&mut self, p: &DownloadProgress)
        ensures
            final(self).progress_bits == p.progress_bits,
            final(self).downloaded_bytes == p.downloaded_bytes,
            final(self).total_bytes == p.total_bytes,
            final(self).speed == p.speed,
            final(self).eta_seconds == p.eta_seconds,
            final(self).id == old(self).id,
            final(self).url == old(self).url,
            final(self).title == old(self).title,
            final(self).thumbnail == old(self).thumbnail,
            final(self).format == old(self).format,
            final(self).quality == old(self).quality,
            final(self).filepath == old(self).filepath,
            final(self).status == old(self).status,
            final(self).error == old(self).error,
            final(self).created_at == old(self).created_at,
            final(self).completed_at == old(self).completed_at,
    {
        self.progress_bits = p.progress_bits;
        self.downloaded_bytes = p.downloaded_bytes;
        self.total_bytes = p.total_bytes;
        self.speed = p.speed;
        self.eta_seconds = p.eta_seconds;
    }
}

} // verus!
