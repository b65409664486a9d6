//! Verified core of a video downloader: parsing of the download tool's
//! progress output, format and quality selection, download bookkeeping,
//! history and settings models.

pub mod text;
pub mod clock;
pub mod models;
pub mod video;
pub mod json;
pub mod urls;
pub mod engine;
pub mod downloads;
pub mod cancel;
pub mod history;
pub mod settings;
pub mod laws;
pub mod progress;

use vstd::prelude::*;

verus! {

/// Entry point kept for mobile targets; desktop startup lives in the app.
pub fn run() {
}

} // verus!
