//! The history of completed downloads.

use vstd::prelude::*;
use crate::clock::{Timestamp, now};
use crate::models::Download;
use crate::text::text_eq;

verus! {

/// The most entries the history keeps; older ones are dropped.
pub const HISTORY_LIMIT: usize = 1000usize;

/// One completed download.
#[derive(Clone)]
pub struct HistoryEntry {
    pub id: String,
    pub url: String,
    pub title: String,
    pub filepath: String,
    pub format: String,
    pub quality: String,
    pub downloaded_at: Timestamp,
    pub file_size: u64,
}

/// The entries, newest first, and running totals.
#[derive(Clone)]
pub struct DownloadHistory {
    pub downloads: Vec<HistoryEntry>,
    pub total_downloads: u64,
    pub total_bytes_downloaded: u64,
}

/// `e` records `d`: its identity, file, format and quality, and its
/// downloaded bytes as the file size.
pub open spec fn records(e: HistoryEntry, d: Download) -> bool {
    &&& e.id == d.id
    &&& e.url == d.url
    &&& e.title == d.title
    &&& e.filepath == d.filepath
    &&& e.format == d.format
    &&& e.quality == d.quality
    &&& e.file_size == d.downloaded_bytes
}

/// Recording `d` keeps both totals within `u64`.
pub open spec fn can_record(h: DownloadHistory, d: Download) -> bool {
    &&& h.total_downloads < u64::MAX
    &&& h.total_bytes_downloaded + d.downloaded_bytes <= u64::MAX
}

/// The number of entries kept after adding one to `n` entries.
pub open spec fn kept_after_add(n: int) -> int {
    if n + 1 <= HISTORY_LIMIT {
        n + 1
    } else {
        HISTORY_LIMIT as int
    }
}

/// `i` is the first position in `s` of an entry with id `id`.
pub open spec fn first_entry_with_id(s: Seq<HistoryEntry>, id: Seq<char>, i: int) -> bool {
    &&& 0 <= i < s.len()
    &&& s[i].id@ == id
    &&& forall|j: int| 0 <= j < i ==> (#[trigger] s[j]).id@ != id
}

/// No entry in `s` has id `id`.
pub open spec fn no_entry_with_id(s: Seq<HistoryEntry>, id: Seq<char>) -> bool {
    forall|j: int| 0 <= j < s.len() ==> (#[trigger] s[j]).id@ != id
}

/// `h1` is `h0` after recording `d`: its entry goes first, the older
/// entries follow up to the limit, and the totals grow by one download and
/// its bytes.
pub open spec fn add_result(h0: DownloadHistory, h1: DownloadHistory, d: Download) -> bool {
    &&& h1.downloads@.len() == kept_after_add(h0.downloads@.len() as int)
    &&& records(h1.downloads@[0], d)
    &&& forall|i: int|
        1 <= i < h1.downloads@.len() ==> #[trigger] h1.downloads@[i] == h0.downloads@[i - 1]
    &&& h1.total_downloads == h0.total_downloads + 1
    &&& h1.total_bytes_downloaded == h0.total_bytes_downloaded + d.downloaded_bytes
}

/// `h1` is `h0` without its first entry with id `id` (unchanged when there
/// is none); the totals are kept.
pub open spec fn remove_result(h0: DownloadHistory, h1: DownloadHistory, id: Seq<char>) -> bool {
    &&& no_entry_with_id(h0.downloads@, id) ==> h1.downloads@ == h0.downloads@
    &&& forall|i: int|
        first_entry_with_id(h0.downloads@, id, i) ==> h1.downloads@ == h0.downloads@.remove(i)
    &&& h1.total_downloads == h0.total_downloads
    &&& h1.total_bytes_downloaded == h0.total_bytes_downloaded
}

/// An empty history.
pub open spec fn is_empty_history(h: DownloadHistory) -> bool {
    &&& h.downloads@.len() == 0
    &&& h.total_downloads == 0
    &&& h.total_bytes_downloaded == 0
}

impl HistoryEntry {
    /// The entry for `d`, downloaded at `at`.
    pub fn from_download(d: &Download, at: Timestamp) -> (r: Self)
        ensures
            records(r, *d),
            r.downloaded_at == at,
    {
        HistoryEntry {
            id: d.id.clone(),
            url: d.url.clone(),
            title: d.title.clone(),
            filepath: d.filepath.clone(),
            format: d.format.clone(),
            quality: d.quality.clone(),
            downloaded_at: at,
            file_size: d.downloaded_bytes,
        }
    }
}

impl Default for DownloadHistory {
    fn default() -> (r: Self)
        ensures
            is_empty_history(r),
    {
        DownloadHistory { downloads: Vec::new(), total_downloads: 0, total_bytes_downloaded: 0 }
    }
}

impl DownloadHistory {
    /// Whether `add` can record `d` (it overflows a total otherwise).
    pub fn can_add(&self, d: &Download) -> (r: bool)
        ensures
            r == can_record(*self, *d),
    {
        self.total_downloads < u64::MAX && d.downloaded_bytes <= u64::MAX
            - self.total_bytes_downloaded
    }

    /// Records `d` as downloaded now: its entry goes first, the totals grow
    /// by one download and its bytes, and only the newest `HISTORY_LIMIT`
    /// entries are kept.
    pub fn add(&mut self, d: &Download)
        requires
            can_record(*old(self), *d),
        ensures
            add_result(*old(self), *final(self), *d),
    {
        let entry = HistoryEntry::from_download(d, now());
        self.downloads.insert(0, entry);
        self.total_downloads = self.total_downloads + 1;
        self.total_bytes_downloaded = self.total_bytes_downloaded + d.downloaded_bytes;
        if self.downloads.len() > HISTORY_LIMIT {
            self.downloads.truncate(HISTORY_LIMIT);
        }
    }

    /// Forgets every entry and resets the totals.
    pub fn clear(&mut self)
        ensures
            is_empty_history(*final(self)),
    {
        self.downloads.clear();
        self.total_downloads = 0;
        self.total_bytes_downloaded = 0;
    }

    /// Removes the first entry with id `id`, if there is one.  The totals
    /// are not changed.
    pub fn remove(&mut self, id: &str)
        ensures
            remove_result(*old(self), *final(self), id@),
    {
        let mut i: usize = 0;
        while i < self.downloads.len()
            invariant
                i <= self.downloads@.len(),
                self.downloads@ == old(self).downloads@,
                self.total_downloads == old(self).total_downloads,
                self.total_bytes_downloaded == old(self).total_bytes_downloaded,
                forall|j: int| 0 <= j < i ==> (#[trigger] self.downloads@[j]).id@ != id@,
            decreases self.downloads@.len() - i,
        {
            if text_eq(self.downloads[i].id.as_str(), id) {
                let ghost before = self.downloads@;
                self.downloads.remove(i);
                proof {
                    assert forall|k: int| first_entry_with_id(before, id@, k) implies k == i by {
                        if k > i {
                            assert(before[i as int].id@ == id@);
                        }
                    }
                }
                return;
            }
            i += 1;
        }
    }
}

} // verus!
