//! Bookkeeping of the downloads in flight.

use vstd::prelude::*;
use crate::models::{BatchDownloadRequest, Download, DownloadRequest, DownloadStatus};
use crate::progress::DownloadProgress;
use crate::text::text_eq;
use crate::clock::{fresh_id, is_v4_uuid_text};

verus! {

/// `request`, with an empty output folder replaced by `default_path`.
pub fn with_default_output(request: DownloadRequest, default_path: &str) -> (r: DownloadRequest)
    ensures
        r.url == request.url,
        r.format == request.format,
        r.quality == request.quality,
        request.output_path@.len() == 0 ==> r.output_path@ == default_path@,
        request.output_path@.len() > 0 ==> r.output_path == request.output_path,
{
    let mut request = request;
    if request.output_path.as_str().is_empty() {
        request.output_path = default_path.to_owned();
    }
    request
}

/// One request per URL of a batch, in order, each with the batch's format
/// and quality, and its folder or else `default_path`.
pub fn batch_requests(batch: &BatchDownloadRequest, default_path: &str) -> (r: Vec<DownloadRequest>)
    ensures
        r@.len() == batch.urls@.len(),
        forall|i: int|
            0 <= i < r@.len() ==> {
                &&& (#[trigger] r@[i]).url == batch.urls@[i]
                &&& r@[i].format == batch.format
                &&& r@[i].quality == batch.quality
                &&& r@[i].output_path@ == if batch.output_path@.len() == 0 {
                    default_path@
                } else {
                    batch.output_path@
                }
            },
{
    let mut out: Vec<DownloadRequest> = Vec::new();
    let mut i: usize = 0;
    while i < batch.urls.len()
        invariant
            i <= batch.urls@.len(),
            out@.len() == i,
            forall|j: int|
                0 <= j < i ==> {
                    &&& (#[trigger] out@[j]).url == batch.urls@[j]
                    &&& out@[j].format == batch.format
                    &&& out@[j].quality == batch.quality
                    &&& out@[j].output_path@ == if batch.output_path@.len() == 0 {
                        default_path@
                    } else {
                        batch.output_path@
                    }
                },
        decreases batch.urls@.len() - i,
    {
        let output_path = if batch.output_path.as_str().is_empty() {
            default_path.to_owned()
        } else {
            batch.output_path.clone()
        };
        out.push(
            DownloadRequest {
                url: batch.urls[i].clone(),
                format: batch.format.clone(),
                quality: batch.quality.clone(),
                output_path,
            },
        );
        i += 1;
    }
    out
}

/// The pending download that is tracked for `request` under `id`: no
/// title or thumbnail yet, the folder as its path.
pub fn tracked_download(request: &DownloadRequest, id: String) -> (r: Download)
    ensures
        r.id == id,
        r.url == request.url,
        r.title@ == Seq::<char>::empty(),
        r.thumbnail@ == Seq::<char>::empty(),
        r.format == request.format,
        r.quality == request.quality,
        r.filepath == request.output_path,
        r.status == DownloadStatus::Pending,
        r.progress_bits == 0,
        r.downloaded_bytes == 0,
        r.total_bytes == 0,
        r.speed == 0,
        r.eta_seconds == 0,
        r.error is None,
        r.completed_at is None,
{
    Download::with_id(
        id,
        request.url.clone(),
        String::new(),
        String::new(),
        request.format.clone(),
        request.quality.clone(),
        request.output_path.clone(),
    )
}

/// `d` is the pending download tracked for `request` under `id`.
pub open spec fn is_tracked_for(d: Download, request: DownloadRequest, id: String) -> bool {
    &&& d.id == id
    &&& d.url == request.url
    &&& d.title@ == Seq::<char>::empty()
    &&& d.thumbnail@ == Seq::<char>::empty()
    &&& d.format == request.format
    &&& d.quality == request.quality
    &&& d.filepath == request.output_path
    &&& d.status == DownloadStatus::Pending
    &&& d.progress_bits == 0
    &&& d.downloaded_bytes == 0
    &&& d.total_bytes == 0
    &&& d.speed == 0
    &&& d.eta_seconds == 0
    &&& d.error is None
    &&& d.completed_at is None
}

/// A finished download is recorded in the history when it completed.
pub fn enters_history(d: &Download) -> (r: bool)
    ensures
        r == (d.status == DownloadStatus::Completed),
{
    d.status == DownloadStatus::Completed
}

/// The downloads in flight, in the order they were started.
pub struct ActiveDownloads {
    pub downloads: Vec<Download>,
}

/// `d` with the figures of `p`.
pub open spec fn with_progress(d: Download, p: DownloadProgress) -> Download {
    Download {
        progress_bits: p.progress_bits,
        downloaded_bytes: p.downloaded_bytes,
        total_bytes: p.total_bytes,
        speed: p.speed,
        eta_seconds: p.eta_seconds,
        ..d
    }
}

/// `i` is the first position in `s` of a download with id `id`.
pub open spec fn first_with_id(s: Seq<Download>, id: Seq<char>, i: int) -> bool {
    &&& 0 <= i < s.len()
    &&& s[i].id@ == id
    &&& forall|j: int| 0 <= j < i ==> (#[trigger] s[j]).id@ != id
}

/// No download in `s` has id `id`.
pub open spec fn lacks_id(s: Seq<Download>, id: Seq<char>) -> bool {
    forall|j: int| 0 <= j < s.len() ==> (#[trigger] s[j]).id@ != id
}

/// The downloads of `s` whose id is not `id`, in order.
pub open spec fn without_id(s: Seq<Download>, id: Seq<char>) -> Seq<Download> {
    s.filter(|d: Download| d.id@ != id)
}

impl ActiveDownloads {
    pub fn new() -> (r: Self)
        ensures
            r.downloads@.len() == 0,
    {
        ActiveDownloads { downloads: Vec::new() }
    }

    /// Starts tracking `d`, after the downloads already tracked.
    pub fn track(&mut self, d: Download)
        ensures
            final(self).downloads@ == old(self).downloads@.push(d),
    {
        self.downloads.push(d);
    }

    /// Copies the figures of `p` into the first tracked download with the
    /// same id; nothing changes when no download has that id.
    pub fn apply_progress(&mut self, p: &DownloadProgress)
        ensures
            lacks_id(old(self).downloads@, p.id@) ==> final(self).downloads@ == old(
                self,
            ).downloads@,
            forall|i: int|
                first_with_id(old(self).downloads@, p.id@, i) ==> final(self).downloads@ == old(
                    self,
                ).downloads@.update(i, with_progress(old(self).downloads@[i], *p)),
    {
        let mut i: usize = 0;
        while i < self.downloads.len()
            invariant
                i <= self.downloads@.len(),
                self.downloads@ == old(self).downloads@,
                forall|j: int| 0 <= j < i ==> (#[trigger] self.downloads@[j]).id@ != p.id@,
            decreases self.downloads@.len() - i,
        {
            if text_eq(self.downloads[i].id.as_str(), p.id.as_str()) {
                let ghost before = self.downloads@;
                let mut d = self.downloads.remove(i);
                d.apply_progress(p);
                self.downloads.insert(i, d);
                proof {
                    assert(self.downloads@ =~= before.update(i as int, with_progress(before[i as int], *p)));
                    assert forall|k: int| first_with_id(before, p.id@, k) implies k == i by {
                        if k < i {
                        } else if k > i {
                            assert(before[i as int].id@ == p.id@);
                        }
                    }
                }
                return;
            }
            i += 1;
        }
    }

    /// Stops tracking every download with id `id`.
    pub fn release(&mut self, id: &str)
        ensures
            final(self).downloads@ == without_id(old(self).downloads@, id@),
    {
        let mut kept: Vec<Download> = Vec::new();
        let mut rest: Vec<Download> = Vec::new();
        std::mem::swap(&mut rest, &mut self.downloads);
        let ghost all = rest@;
        let ghost mut n: int = 0;
        assert(all.skip(0) =~= all);
        while rest.len() > 0
            invariant
                all == old(self).downloads@,
                0 <= n <= all.len(),
                rest@ == all.skip(n),
                kept@ == without_id(all.take(n), id@),
            decreases rest@.len(),
        {
            let d = rest.remove(0);
            proof {
                assert(all.take(n + 1) =~= all.take(n).push(d));
                all.take(n).lemma_filter_push(d, |x: Download| x.id@ != id@);
                assert(rest@ =~= all.skip(n + 1));
                n = n + 1;
            }
            if !text_eq(d.id.as_str(), id) {
                kept.push(d);
            }
        }
        assert(all.take(n) =~= all);
        self.downloads = kept;
    }

    /// What happens before the engine runs a request: its folder defaults
    /// to `default_path`, it gets a fresh id, and a pending download under
    /// that id is tracked.  Returns the request and the id; `None`, with
    /// nothing tracked, when the system's random source fails.
    pub fn begin(&mut self, request: DownloadRequest, default_path: &str) -> (r: Option<
        (DownloadRequest, String),
    >)
        ensures
            r is None ==> final(self).downloads@ == old(self).downloads@,
            r matches Some(p) ==> {
                &&& p.0.url == request.url
                &&& p.0.format == request.format
                &&& p.0.quality == request.quality
                &&& request.output_path@.len() == 0 ==> p.0.output_path@ == default_path@
                &&& request.output_path@.len() > 0 ==> p.0.output_path == request.output_path
                &&& is_v4_uuid_text(p.1@)
                &&& final(self).downloads@.len() == old(self).downloads@.len() + 1
                &&& final(self).downloads@.take(old(self).downloads@.len() as int) == old(
                    self,
                ).downloads@
                &&& is_tracked_for(final(self).downloads@.last(), p.0, p.1)
            },
    {
        let request = with_default_output(request, default_path);
        let id = match fresh_id() {
            Some(id) => id,
            None => return None,
        };
        let d = tracked_download(&request, id.clone());
        self.track(d);
        assert(self.downloads@.take(old(self).downloads@.len() as int) =~= old(self).downloads@);
        Some((request, id))
    }

    /// What happens once the engine returns a download: it is no longer
    /// tracked.  Returns whether it goes into the history.
    pub fn finish(&mut self, download: &Download) -> (r: bool)
        ensures
            final(self).downloads@ == without_id(old(self).downloads@, download.id@),
            r == (download.status == DownloadStatus::Completed),
    {
        self.release(download.id.as_str());
        enters_history(download)
    }
}

} // verus!
