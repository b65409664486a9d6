//! User settings and their defaults.

use vstd::prelude::*;

verus! {

#[derive(Clone, Copy, Debug, PartialEq, Eq, Structural)]
pub enum VideoFormat {
    MP4,
    WEBM,
    MKV,
    MP3,
    M4A,
}

#[derive(Clone)]
pub enum QualityPreference {
    Highest,
    High,
    Medium,
    Low,
    Custom(String),
}

#[derive(Clone)]
pub struct Settings {
    pub download_path: String,
    pub parallel_downloads: usize,
    pub max_retries: u32,
    pub auto_convert: bool,
    pub preferred_format: VideoFormat,
    pub quality_preference: QualityPreference,
    pub skip_existing: bool,
    pub filename_template: String,
    pub theme: String,
    pub language: String,
}

/// The download folder: the one the platform names (found by the caller,
/// since finding it reads the environment and the user's directory file),
/// or the current folder `.` when there is none.
pub open spec fn download_folder_of(found: Option<Seq<char>>) -> Seq<char> {
    match found {
        Some(f) => f,
        None => "."@,
    }
}

/// The download folder: `found`, or `.` when the platform names none.  It
/// is never empty when `found` is not, so it can stand in for an empty
/// output folder.
pub fn get_download_folder(found: Option<String>) -> (r: String)
    ensures
        r@ == download_folder_of(
            match found {
                Some(f) => Some(f@),
                None => None,
            },
        ),
        (found matches Some(f) ==> f@.len() > 0) ==> r@.len() > 0,
{
    proof {
        reveal_strlit(".");
    }
    match found {
        Some(f) => f,
        None => ".".to_owned(),
    }
}

/// The settings other than the download folder are at their defaults.
pub open spec fn has_default_choices(s: Settings) -> bool {
    &&& s.parallel_downloads == 2
    &&& s.max_retries == 3
    &&& !s.auto_convert
    &&& s.preferred_format == VideoFormat::MP4
    &&& s.quality_preference is High
    &&& s.skip_existing
    &&& s.filename_template@ == "%(title)s.%(ext)s"@
    &&& s.theme@ == "dark"@
    &&& s.language@ == "en"@
}

impl Settings {
    /// The default settings, downloading into the download folder for
    /// `found` (see `get_download_folder`).
    pub fn defaults_for(found: Option<String>) -> (r: Self)
        ensures
            r.download_path@ == download_folder_of(
                match found {
                    Some(f) => Some(f@),
                    None => None,
                },
            ),
            (found matches Some(f) ==> f@.len() > 0) ==> r.download_path@.len() > 0,
            has_default_choices(r),
    {
        Settings::defaults_in(get_download_folder(found))
    }

    /// The default settings, downloading into `download_path`.
    pub fn defaults_in(download_path: String) -> (r: Self)
        ensures
            r.download_path == download_path,
            has_default_choices(r),
    {
        Settings {
            download_path,
            parallel_downloads: 2,
            max_retries: 3,
            auto_convert: false,
            preferred_format: VideoFormat::MP4,
            quality_preference: QualityPreference::High,
            skip_existing: true,
            filename_template: "%(title)s.%(ext)s".to_owned(),
            theme: "dark".to_owned(),
            language: "en".to_owned(),
        }
    }
}

} // verus!
