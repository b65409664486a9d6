//! The commands the downloader runs, and the decisions around them.

use vstd::prelude::*;
use crate::models::{Download, DownloadRequest, DownloadStatus, PERCENT_FULL_BITS};
use crate::settings::Settings;
use crate::text::{chars_of, text_eq};

verus! {

/// The views of a list of strings.
pub open spec fn texts(v: Seq<String>) -> Seq<Seq<char>> {
    v.map_values(|s: String| s@)
}

/// The format selection that the download tool is given for a quality and
/// a container format.  Unknown qualities are passed on as they are.
pub open spec fn format_selector_spec(quality: Seq<char>, format: Seq<char>) -> Seq<char> {
    if quality == "highest"@ {
        "bestvideo+bestaudio/best"@
    } else if quality == "high"@ {
        if format == "mp4"@ {
            "bestvideo[height<=1080][ext=mp4]+bestaudio[ext=m4a]/best[height<=1080][ext=mp4]"@
        } else {
            "bestvideo[height<=1080]+bestaudio/best[height<=1080]"@
        }
    } else if quality == "medium"@ {
        if format == "mp4"@ {
            "bestvideo[height<=720][ext=mp4]+bestaudio[ext=m4a]/best[height<=720][ext=mp4]"@
        } else {
            "bestvideo[height<=720]+bestaudio/best[height<=720]"@
        }
    } else if quality == "low"@ {
        if format == "mp4"@ {
            "bestvideo[height<=480][ext=mp4]+bestaudio[ext=m4a]/best[height<=480][ext=mp4]"@
        } else {
            "bestvideo[height<=480]+bestaudio/best[height<=480]"@
        }
    } else {
        quality
    }
}

/// The progress template the tool prints its progress lines with.
pub open spec fn progress_template() -> Seq<char> {
    "%(progress._percent_str)s|%(progress._speed_str)s|%(progress._eta_str)s|%(progress.downloaded_bytes)s|%(progress.total_bytes)s"@
}

/// Audio formats are extracted from the downloaded file.
pub open spec fn is_audio_format(format: Seq<char>) -> bool {
    format == "mp3"@ || format == "m4a"@
}

/// The arguments of the download tool for one download.  The tool leaves
/// a file that is already there alone unless told to overwrite it, so
/// `--force-overwrites` is added exactly when existing files are not to be
/// skipped.
pub open spec fn download_args_spec(
    url: Seq<char>,
    format: Seq<char>,
    quality: Seq<char>,
    output_template: Seq<char>,
    skip_existing: bool,
) -> Seq<Seq<char>> {
    let base = seq![
        "--newline"@,
        "--progress"@,
        "--progress-template"@,
        progress_template(),
        "-f"@,
        format_selector_spec(quality, format),
        "-o"@,
        output_template,
        "--no-mtime"@,
        "--no-playlist"@,
        url,
    ];
    let with_audio = if is_audio_format(format) {
        base + seq!["-x"@, "--audio-format"@, format]
    } else {
        base
    };
    if skip_existing {
        with_audio
    } else {
        with_audio.push("--force-overwrites"@)
    }
}

/// The codec that audio of a format is encoded with (`copy` keeps it).
pub open spec fn audio_codec_spec(format: Seq<char>) -> Seq<char> {
    if format == "mp3"@ {
        "libmp3lame"@
    } else if format == "m4a"@ {
        "aac"@
    } else if format == "opus"@ {
        "libopus"@
    } else if format == "wav"@ {
        "pcm_s16le"@
    } else if format == "flac"@ {
        "flac"@
    } else {
        "copy"@
    }
}

/// The format selection for a quality and a container format.
pub fn format_selector(quality: &str, format: &str) -> (r: String)
    ensures
        r@ == format_selector_spec(quality@, format@),
{
    let mp4 = text_eq(format, "mp4");
    if text_eq(quality, "highest") {
        "bestvideo+bestaudio/best".to_owned()
    } else if text_eq(quality, "high") {
        if mp4 {
            "bestvideo[height<=1080][ext=mp4]+bestaudio[ext=m4a]/best[height<=1080][ext=mp4]".to_owned()
        } else {
            "bestvideo[height<=1080]+bestaudio/best[height<=1080]".to_owned()
        }
    } else if text_eq(quality, "medium") {
        if mp4 {
            "bestvideo[height<=720][ext=mp4]+bestaudio[ext=m4a]/best[height<=720][ext=mp4]".to_owned()
        } else {
            "bestvideo[height<=720]+bestaudio/best[height<=720]".to_owned()
        }
    } else if text_eq(quality, "low") {
        if mp4 {
            "bestvideo[height<=480][ext=mp4]+bestaudio[ext=m4a]/best[height<=480][ext=mp4]".to_owned()
        } else {
            "bestvideo[height<=480]+bestaudio/best[height<=480]".to_owned()
        }
    } else {
        quality.to_owned()
    }
}

/// What `PathBuf::from(base).join(name)` gives, as text.  How the parts
/// are joined (the separator, an absolute `name` replacing `base`) follows
/// the path rules of the platform the library is built for.
pub uninterp spec fn path_join_of(base: Seq<char>, name: Seq<char>) -> Seq<char>;

/// What `Path::new(path).with_extension(extension)` gives, as text.
pub uninterp spec fn path_with_extension_of(path: Seq<char>, extension: Seq<char>) -> Seq<char>;

/// Whether `c` separates the parts of a path on the platform the library
/// is built for.
pub uninterp spec fn path_separator(c: char) -> bool;

/// `PathBuf::from(base).join(name)`, as text (through `to_string_lossy`,
/// which loses nothing on a path made of a `str`).
#[verifier::external_body]
fn path_join(base: &str, name: &str) -> (r: String)
    ensures
        r@ == path_join_of(base@, name@),
{
    std::path::PathBuf::from(base).join(name).to_string_lossy().into_owned()
}

/// `Path::with_extension`, as text.  It panics on an extension that holds
/// a path separator, which `requires` rules out.
#[verifier::external_body]
fn path_with_extension(path: &str, extension: &str) -> (r: String)
    requires
        forall|i: int| 0 <= i < extension@.len() ==> !path_separator(#[trigger] extension@[i]),
    ensures
        r@ == path_with_extension_of(path@, extension@),
{
    std::path::Path::new(path).with_extension(extension).to_string_lossy().into_owned()
}

/// `std::path::is_separator`.
#[verifier::external_body]
fn is_path_separator(c: char) -> (r: bool)
    ensures
        r == path_separator(c),
{
    std::path::is_separator(c)
}

/// Some character of `s` is a path separator.
pub open spec fn has_separator(s: Seq<char>) -> bool {
    exists|i: int| 0 <= i < s.len() && path_separator(#[trigger] s[i])
}

/// Whether some character of `s` is a path separator.
pub fn contains_path_separator(s: &str) -> (r: bool)
    ensures
        r == has_separator(s@),
{
    let cs = chars_of(s);
    let mut i: usize = 0;
    while i < cs.len()
        invariant
            i <= cs@.len(),
            cs@ == s@,
            forall|j: int| 0 <= j < i ==> !path_separator(#[trigger] cs@[j]),
        decreases cs@.len() - i,
    {
        if is_path_separator(cs[i]) {
            assert(path_separator(s@[i as int]));
            return true;
        }
        i += 1;
    }
    false
}

/// The output template of a download: the folder joined with the file-name
/// template (by default `%(title)s.%(ext)s`; the download tool fills in
/// `%(title)s`, `%(id)s`, `%(ext)s`, `%(uploader)s`, `%(resolution)s`).
pub fn output_template(output_path: &str, filename_template: &str) -> (r: String)
    ensures
        r@ == path_join_of(output_path@, filename_template@),
{
    path_join(output_path, filename_template)
}

/// What the settings decide about each download.
pub struct DownloadOptions {
    /// The file-name pattern, joined to the download folder.
    pub filename_template: String,
    /// Files that are already there are not downloaded again.
    pub skip_existing: bool,
    /// How many times a failed download is tried again.
    pub max_retries: u32,
}

impl DownloadOptions {
    /// The options that `settings` give.
    pub fn from_settings(settings: &Settings) -> (r: Self)
        ensures
            r.filename_template == settings.filename_template,
            r.skip_existing == settings.skip_existing,
            r.max_retries == settings.max_retries,
    {
        DownloadOptions {
            filename_template: settings.filename_template.clone(),
            skip_existing: settings.skip_existing,
            max_retries: settings.max_retries,
        }
    }
}

/// The arguments of the download tool for `request`, writing to
/// `output_template`.
pub fn download_args(request: &DownloadRequest, output_template: &str, skip_existing: bool) -> (r:
    Vec<String>)
    ensures
        texts(r@) == download_args_spec(
            request.url@,
            request.format@,
            request.quality@,
            output_template@,
            skip_existing,
        ),
{
    let mut args: Vec<String> = Vec::new();
    args.push("--newline".to_owned());
    args.push("--progress".to_owned());
    args.push("--progress-template".to_owned());
    args.push(
        "%(progress._percent_str)s|%(progress._speed_str)s|%(progress._eta_str)s|%(progress.downloaded_bytes)s|%(progress.total_bytes)s".to_owned(),
    );
    args.push("-f".to_owned());
    args.push(format_selector(request.quality.as_str(), request.format.as_str()));
    args.push("-o".to_owned());
    args.push(output_template.to_owned());
    args.push("--no-mtime".to_owned());
    args.push("--no-playlist".to_owned());
    args.push(request.url.clone());
    let ghost base = texts(args@);
    if text_eq(request.format.as_str(), "mp3") || text_eq(request.format.as_str(), "m4a") {
        args.push("-x".to_owned());
        args.push("--audio-format".to_owned());
        args.push(request.format.clone());
        assert(texts(args@) =~= base + seq!["-x"@, "--audio-format"@, request.format@]);
    }
    let ghost with_audio = texts(args@);
    if !skip_existing {
        args.push("--force-overwrites".to_owned());
        assert(texts(args@) =~= with_audio.push("--force-overwrites"@));
    }
    assert(texts(args@) =~= download_args_spec(
        request.url@,
        request.format@,
        request.quality@,
        output_template@,
        skip_existing,
    ));
    args
}

/// The arguments of the download tool for `request`: those of
/// `download_args`, writing to the request's folder joined with the
/// file-name template of `options`.
pub fn download_command(request: &DownloadRequest, options: &DownloadOptions) -> (r: Vec<String>)
    ensures
        texts(r@) == download_args_spec(
            request.url@,
            request.format@,
            request.quality@,
            path_join_of(request.output_path@, options.filename_template@),
            options.skip_existing,
        ),
{
    let template = output_template(request.output_path.as_str(), options.filename_template.as_str());
    download_args(request, template.as_str(), options.skip_existing)
}

/// The download as the engine starts it: `id` and the request's fields,
/// the folder as its path, status `Downloading`.
pub fn started_download(request: &DownloadRequest, id: String) -> (r: Download)
    ensures
        r.id == id,
        r.url == request.url,
        r.title@ == Seq::<char>::empty(),
        r.thumbnail@ == Seq::<char>::empty(),
        r.format == request.format,
        r.quality == request.quality,
        r.filepath == request.output_path,
        r.status == DownloadStatus::Downloading,
        r.progress_bits == 0,
        r.downloaded_bytes == 0,
        r.total_bytes == 0,
        r.speed == 0,
        r.eta_seconds == 0,
        r.error is None,
        r.completed_at is None,
{
    let mut d = crate::downloads::tracked_download(request, id);
    d.status = DownloadStatus::Downloading;
    d
}

/// `d` with status `s`.
pub open spec fn with_status(d: Download, s: DownloadStatus) -> Download {
    Download { status: s, ..d }
}

/// `d` completed, at 100%.
pub open spec fn completed(d: Download) -> Download {
    Download { status: DownloadStatus::Completed, progress_bits: PERCENT_FULL_BITS, ..d }
}

/// `d` failed with the error `e`.
pub open spec fn failed(d: Download, e: Option<String>) -> Download {
    Download { status: DownloadStatus::Failed, error: e, ..d }
}

/// The download once the tool has exited: cancelled if it was cancelled;
/// otherwise completed at 100% if the tool succeeded, failed with the
/// message `Download failed` if not.
pub fn finished_download(download: Download, cancelled: bool, succeeded: bool) -> (r: Download)
    ensures
        cancelled ==> r == with_status(download, DownloadStatus::Cancelled),
        !cancelled && succeeded ==> r == completed(download),
        !cancelled && !succeeded ==> (r.error matches Some(e) && e@ == "Download failed"@),
        !cancelled && !succeeded ==> r == failed(download, r.error),
{
    let mut d = download;
    if cancelled {
        d.status = DownloadStatus::Cancelled;
        return d;
    }
    if succeeded {
        d.status = DownloadStatus::Completed;
        d.progress_bits = PERCENT_FULL_BITS;
    } else {
        d.status = DownloadStatus::Failed;
        d.error = Some("Download failed".to_owned());
    }
    d
}

/// Whether a run of the download tool that ended this way is followed by
/// another: the download was neither cancelled nor successful, and fewer
/// than `max_retries` retries were made before (`retries_done`).  So a
/// download runs at most `max_retries + 1` times.
pub fn should_retry(retries_done: u32, max_retries: u32, cancelled: bool, succeeded: bool) -> (r:
    bool)
    ensures
        r == (!cancelled && !succeeded && retries_done < max_retries),
{
    !cancelled && !succeeded && retries_done < max_retries
}

/// The least and the most downloads that may run at once.
pub const MIN_PARALLEL: usize = 1;

pub const MAX_PARALLEL: usize = 10;

/// The number of downloads that may run at once: the limit, kept between 1
/// and 10.
pub fn permit_count(parallel_limit: usize) -> (r: usize)
    ensures
        MIN_PARALLEL <= r <= MAX_PARALLEL,
        r == if parallel_limit < MIN_PARALLEL {
            MIN_PARALLEL
        } else if parallel_limit > MAX_PARALLEL {
            MAX_PARALLEL
        } else {
            parallel_limit
        },
{
    if parallel_limit < MIN_PARALLEL {
        MIN_PARALLEL
    } else if parallel_limit > MAX_PARALLEL {
        MAX_PARALLEL
    } else {
        parallel_limit
    }
}

/// Which of the outside tools are installed.
pub struct DependenciesStatus {
    pub yt_dlp: bool,
    pub ffmpeg: bool,
}

/// Audio conversion and merging with the media tool.
pub struct Converter;

impl Converter {
    pub fn new() -> (r: Self)
        ensures
            r == Converter,
    {
        Converter
    }

    /// The codec that audio of `format` is encoded with.
    pub fn get_audio_codec(format: &str) -> (r: &'static str)
        ensures
            r@ == audio_codec_spec(format@),
    {
        if text_eq(format, "mp3") {
            "libmp3lame"
        } else if text_eq(format, "m4a") {
            "aac"
        } else if text_eq(format, "opus") {
            "libopus"
        } else if text_eq(format, "wav") {
            "pcm_s16le"
        } else if text_eq(format, "flac") {
            "flac"
        } else {
            "copy"
        }
    }

    /// Where a conversion writes: the given path, or else the input with
    /// its extension replaced by the output format.  `None` when there is
    /// no path and the format holds a path separator, which no extension
    /// can.
    pub fn conversion_output(&self, input: &str, output_format: &str, output_path: Option<&str>) -> (r:
        Option<String>)
        ensures
            output_path matches Some(p) ==> (r matches Some(o) && o@ == p@),
            output_path is None ==> (r is None <==> has_separator(output_format@)),
            output_path is None ==> (r matches Some(o) ==> o@ == path_with_extension_of(
                input@,
                output_format@,
            )),
    {
        match output_path {
            Some(p) => Some(p.to_owned()),
            None => {
                if contains_path_separator(output_format) {
                    None
                } else {
                    Some(path_with_extension(input, output_format))
                }
            },
        }
    }

    /// The media tool's arguments to convert `input` to `output_format`,
    /// dropping the video, into `output`.
    pub fn convert_args(&self, input: &str, output_format: &str, output: &str) -> (r: Vec<String>)
        ensures
            texts(r@) == seq![
                "-i"@,
                input@,
                "-y"@,
                "-vn"@,
                "-acodec"@,
                audio_codec_spec(output_format@),
                output@,
            ],
    {
        let mut args: Vec<String> = Vec::new();
        args.push("-i".to_owned());
        args.push(input.to_owned());
        args.push("-y".to_owned());
        args.push("-vn".to_owned());
        args.push("-acodec".to_owned());
        args.push(Self::get_audio_codec(output_format).to_owned());
        args.push(output.to_owned());
        assert(texts(args@) =~= seq![
            "-i"@,
            input@,
            "-y"@,
            "-vn"@,
            "-acodec"@,
            audio_codec_spec(output_format@),
            output@,
        ]);
        args
    }

    /// The media tool's arguments to merge a video and an audio stream into
    /// `output` without re-encoding.
    pub fn merge_args(&self, video: &str, audio: &str, output: &str) -> (r: Vec<String>)
        ensures
            texts(r@) == seq!["-i"@, video@, "-i"@, audio@, "-c"@, "copy"@, "-y"@, output@],
    {
        let mut args: Vec<String> = Vec::new();
        args.push("-i".to_owned());
        args.push(video.to_owned());
        args.push("-i".to_owned());
        args.push(audio.to_owned());
        args.push("-c".to_owned());
        args.push("copy".to_owned());
        args.push("-y".to_owned());
        args.push(output.to_owned());
        assert(texts(args@) =~= seq!["-i"@, video@, "-i"@, audio@, "-c"@, "copy"@, "-y"@, output@]);
        args
    }
}

impl Default for Converter {
    fn default() -> (r: Self)
        ensures
            r == Converter,
    {
        Converter::new()
    }
}

} // verus!
