//! Video metadata as the download tool describes it, and the selection of
//! the available qualities.
//!
//! The tool prints its description as JSON.  The library reads it through
//! `VideoJson` and `FormatJson`, which hold the scalar fields it looks at,
//! each as a `JsonScalar`.

use vstd::prelude::*;
use crate::json::{parse_video_json, video_json_of};
use crate::text::{
    chars_of, parse_u32_chars, parse_u32_spec, split, split_chars, text_eq, trim, trim_chars,
};

verus! {

/// A JSON value as far as the library looks at it.
#[derive(Clone)]
pub enum JsonScalar {
    /// `null`, or a field that is absent.
    Null,
    /// A string.
    Str(String),
    /// A number that fits in `u64`.
    UInt(u64),
    /// An array, by its number of items.
    Items(usize),
    /// Anything else (booleans, other numbers, objects).
    Other,
}

/// The mathematical content of a `JsonScalar`.
pub enum JsonNode {
    Null,
    Str(Seq<char>),
    UInt(u64),
    Items(nat),
    Other,
}

impl JsonNode {
    /// `Value::as_str`.
    pub open spec fn text(self) -> Option<Seq<char>> {
        match self {
            JsonNode::Str(s) => Some(s),
            _ => None,
        }
    }

    /// `Value::as_u64`.
    pub open spec fn number(self) -> Option<u64> {
        match self {
            JsonNode::UInt(n) => Some(n),
            _ => None,
        }
    }
}

impl View for JsonScalar {
    type V = JsonNode;

    open spec fn view(&self) -> JsonNode {
        match self {
            JsonScalar::Null => JsonNode::Null,
            JsonScalar::Str(s) => JsonNode::Str(s@),
            JsonScalar::UInt(n) => JsonNode::UInt(*n),
            JsonScalar::Items(n) => JsonNode::Items(*n as nat),
            JsonScalar::Other => JsonNode::Other,
        }
    }
}

impl JsonScalar {
    pub fn as_u64(&self) -> (r: Option<u64>)
        ensures
            r == self@.number(),
    {
        match self {
            JsonScalar::UInt(n) => Some(*n),
            _ => None,
        }
    }

    pub fn is_null(&self) -> (r: bool)
        ensures
            r == (self@ is Null),
    {
        match self {
            JsonScalar::Null => true,
            _ => false,
        }
    }
}

/// The first of two fields that is present: `a` unless it is null.
pub open spec fn first_present(a: JsonNode, b: JsonNode) -> JsonNode {
    if a is Null {
        b
    } else {
        a
    }
}

/// The text of `x`, or `d` when `x` is not a string.
pub open spec fn text_or(x: JsonNode, d: Seq<char>) -> Seq<char> {
    match x.text() {
        Some(s) => s,
        None => d,
    }
}

/// The fields of one entry of the `formats` array.
#[derive(Clone)]
pub struct FormatJson {
    pub format_id: JsonScalar,
    pub format_note: JsonScalar,
    pub ext: JsonScalar,
    pub resolution: JsonScalar,
    pub fps: JsonScalar,
    pub vcodec: JsonScalar,
    pub acodec: JsonScalar,
    pub filesize: JsonScalar,
    pub filesize_approx: JsonScalar,
}

/// The mathematical content of a `FormatJson`.
pub struct FormatJsonView {
    pub format_id: JsonNode,
    pub format_note: JsonNode,
    pub ext: JsonNode,
    pub resolution: JsonNode,
    pub fps: JsonNode,
    pub vcodec: JsonNode,
    pub acodec: JsonNode,
    pub filesize: JsonNode,
    pub filesize_approx: JsonNode,
}

impl View for FormatJson {
    type V = FormatJsonView;

    open spec fn view(&self) -> FormatJsonView {
        FormatJsonView {
            format_id: self.format_id@,
            format_note: self.format_note@,
            ext: self.ext@,
            resolution: self.resolution@,
            fps: self.fps@,
            vcodec: self.vcodec@,
            acodec: self.acodec@,
            filesize: self.filesize@,
            filesize_approx: self.filesize_approx@,
        }
    }
}

/// The fields of the description of one video.  `thumbnails_first_url` is
/// `thumbnails[0].url`; `formats` holds the entries of the `formats` array
/// and is empty when there is no such array.
#[derive(Clone)]
pub struct VideoJson {
    pub id: JsonScalar,
    pub title: JsonScalar,
    pub thumbnail: JsonScalar,
    pub thumbnails_first_url: JsonScalar,
    pub duration: JsonScalar,
    pub uploader: JsonScalar,
    pub channel: JsonScalar,
    pub view_count: JsonScalar,
    pub upload_date: JsonScalar,
    pub description: JsonScalar,
    pub formats: Vec<FormatJson>,
}

/// The mathematical content of a `VideoJson`.
pub struct VideoJsonView {
    pub id: JsonNode,
    pub title: JsonNode,
    pub thumbnail: JsonNode,
    pub thumbnails_first_url: JsonNode,
    pub duration: JsonNode,
    pub uploader: JsonNode,
    pub channel: JsonNode,
    pub view_count: JsonNode,
    pub upload_date: JsonNode,
    pub description: JsonNode,
    pub formats: Seq<FormatJsonView>,
}

impl View for VideoJson {
    type V = VideoJsonView;

    open spec fn view(&self) -> VideoJsonView {
        VideoJsonView {
            id: self.id@,
            title: self.title@,
            thumbnail: self.thumbnail@,
            thumbnails_first_url: self.thumbnails_first_url@,
            duration: self.duration@,
            uploader: self.uploader@,
            channel: self.channel@,
            view_count: self.view_count@,
            upload_date: self.upload_date@,
            description: self.description@,
            formats: self.formats@.map_values(|f: FormatJson| f@),
        }
    }
}

pub struct Video {
    pub id: String,
    pub url: String,
    pub title: String,
    pub thumbnail: String,
    pub duration: u32,
    pub channel: String,
    pub view_count: Option<u64>,
    pub upload_date: Option<String>,
    pub description: Option<String>,
}

pub struct VideoQuality {
    pub itag: u32,
    pub format_id: String,
    pub format_note: String,
    pub extension: String,
    pub resolution: String,
    pub fps: Option<u32>,
    pub vcodec: String,
    pub acodec: String,
    pub filesize: Option<u64>,
    pub is_video_only: bool,
    pub is_audio_only: bool,
}

/// The mathematical content of a `VideoQuality`.
pub struct VideoQualityView {
    pub itag: u32,
    pub format_id: Seq<char>,
    pub format_note: Seq<char>,
    pub extension: Seq<char>,
    pub resolution: Seq<char>,
    pub fps: Option<u32>,
    pub vcodec: Seq<char>,
    pub acodec: Seq<char>,
    pub filesize: Option<u64>,
    pub is_video_only: bool,
    pub is_audio_only: bool,
}

impl View for VideoQuality {
    type V = VideoQualityView;

    open spec fn view(&self) -> VideoQualityView {
        VideoQualityView {
            itag: self.itag,
            format_id: self.format_id@,
            format_note: self.format_note@,
            extension: self.extension@,
            resolution: self.resolution@,
            fps: self.fps,
            vcodec: self.vcodec@,
            acodec: self.acodec@,
            filesize: self.filesize,
            is_video_only: self.is_video_only,
            is_audio_only: self.is_audio_only,
        }
    }
}

impl Clone for VideoQuality {
    fn clone(&self) -> (r: Self)
        ensures
            r == *self,
    {
        VideoQuality {
            itag: self.itag,
            format_id: self.format_id.clone(),
            format_note: self.format_note.clone(),
            extension: self.extension.clone(),
            resolution: self.resolution.clone(),
            fps: self.fps,
            vcodec: self.vcodec.clone(),
            acodec: self.acodec.clone(),
            filesize: self.filesize,
            is_video_only: self.is_video_only,
            is_audio_only: self.is_audio_only,
        }
    }
}

/// A video together with the qualities it can be downloaded in.
pub struct VideoInfo {
    pub video: Video,
    pub qualities: Vec<VideoQuality>,
    pub best_quality: Option<VideoQuality>,
    pub audio_only_qualities: Vec<VideoQuality>,
    pub video_qualities: Vec<VideoQuality>,
}

// ---------------------------------------------------------------------------
// Specifications
// ---------------------------------------------------------------------------

/// The height that a resolution such as `1920x1080` names: the text after
/// the last `x`, trimmed, as a `u32`; 0 when that does not parse.
pub open spec fn resolution_value(s: Seq<char>) -> u32 {
    match parse_u32_spec(trim(split(s, 'x').last())) {
        Some(n) => n,
        None => 0,
    }
}

/// The codec field names a codec (`as_str().map(|s| s != "none").unwrap_or(false)`).
pub open spec fn has_codec(x: JsonNode) -> bool {
    match x.text() {
        Some(s) => s != "none"@,
        None => false,
    }
}

/// The codec field does not name a codec
/// (`as_str().map(|s| s == "none").unwrap_or(true)`).
pub open spec fn lacks_codec(x: JsonNode) -> bool {
    match x.text() {
        Some(s) => s == "none"@,
        None => true,
    }
}

/// The quality that one entry of `formats` describes.
pub open spec fn quality_view_of(f: FormatJsonView) -> VideoQualityView {
    VideoQualityView {
        itag: match f.format_id.text() {
            Some(s) => match parse_u32_spec(s) {
                Some(n) => n,
                None => 0,
            },
            None => 0,
        },
        format_id: text_or(f.format_id, "unknown"@),
        format_note: text_or(f.format_note, ""@),
        extension: text_or(f.ext, "mp4"@),
        resolution: text_or(f.resolution, "unknown"@),
        fps: match f.fps.number() {
            Some(n) => Some(n as u32),
            None => None,
        },
        vcodec: text_or(f.vcodec, "none"@),
        acodec: text_or(f.acodec, "none"@),
        filesize: first_present(f.filesize, f.filesize_approx).number(),
        is_video_only: has_codec(f.vcodec) && lacks_codec(f.acodec),
        is_audio_only: has_codec(f.acodec) && lacks_codec(f.vcodec),
    }
}

/// Entries whose format id is missing (or literally `unknown`) are dropped.
pub open spec fn is_known(q: VideoQualityView) -> bool {
    q.format_id != "unknown"@
}

/// The qualities that `formats` describes, in the order given, unknown ones
/// dropped.
pub open spec fn known_qualities(formats: Seq<FormatJsonView>) -> Seq<VideoQualityView> {
    formats.map_values(|f: FormatJsonView| quality_view_of(f)).filter(
        |q: VideoQualityView| is_known(q),
    )
}

/// The text of an optional string.
pub open spec fn opt_text(o: Option<String>) -> Option<Seq<char>> {
    match o {
        Some(s) => Some(s@),
        None => None,
    }
}

/// `v` is the video that the description `json` of the video at `url`
/// names, with the fallbacks for missing fields.
pub open spec fn video_matches(v: Video, json: VideoJsonView, url: Seq<char>) -> bool {
    &&& v.id@ == text_or(json.id, "unknown"@)
    &&& v.url@ == url
    &&& v.title@ == text_or(json.title, "Unknown Title"@)
    &&& v.thumbnail@ == match json.thumbnail.text() {
        Some(s) => s,
        None => text_or(json.thumbnails_first_url, ""@),
    }
    &&& v.duration == (match json.duration.number() {
        Some(n) => n,
        None => 0,
    }) as u32
    &&& v.channel@ == text_or(first_present(json.uploader, json.channel), "Unknown"@)
    &&& v.view_count == json.view_count.number()
    &&& opt_text(v.upload_date) == json.upload_date.text()
    &&& opt_text(v.description) == json.description.text()
}

/// `r` is what the description `json` of the video at `url` gives: its
/// video, its known qualities sorted by resolution (highest first, a
/// stable sort), split into audio-only ones and the rest, the best being
/// the first of the rest.
pub open spec fn info_matches(r: VideoInfo, json: VideoJsonView, url: Seq<char>) -> bool {
    &&& video_matches(r.video, json, url)
    &&& stable_sort_of(views(r.qualities@), known_qualities(json.formats))
    &&& r.audio_only_qualities@ == audio_only(r.qualities@)
    &&& r.video_qualities@ == not_audio_only(r.qualities@)
    &&& r.best_quality == if r.video_qualities@.len() > 0 {
        Some(r.video_qualities@[0])
    } else {
        None
    }
}

pub open spec fn views(s: Seq<VideoQuality>) -> Seq<VideoQualityView> {
    s.map_values(|q: VideoQuality| q@)
}

pub open spec fn res_key(q: VideoQualityView) -> u32 {
    resolution_value(q.resolution)
}

/// The qualities of `s` whose resolution value is `k`, in order.
pub open spec fn with_key(s: Seq<VideoQualityView>, k: u32) -> Seq<VideoQualityView> {
    s.filter(|q: VideoQualityView| res_key(q) == k)
}

/// Highest resolution first.
pub open spec fn sorted_desc(s: Seq<VideoQualityView>) -> bool {
    forall|i: int, j: int| 0 <= i < j < s.len() ==> res_key(#[trigger] s[i]) >= res_key(#[trigger] s[j])
}

/// `out` is `input` sorted by resolution, highest first, qualities of equal
/// resolution keeping their order in `input` (a stable sort).
pub open spec fn stable_sort_of(out: Seq<VideoQualityView>, input: Seq<VideoQualityView>) -> bool {
    &&& sorted_desc(out)
    &&& out.len() == input.len()
    &&& forall|k: u32| #[trigger] with_key(out, k) == with_key(input, k)
}

pub open spec fn audio_only(s: Seq<VideoQuality>) -> Seq<VideoQuality> {
    s.filter(|q: VideoQuality| q.is_audio_only)
}

pub open spec fn not_audio_only(s: Seq<VideoQuality>) -> Seq<VideoQuality> {
    s.filter(|q: VideoQuality| !q.is_audio_only)
}

// ---------------------------------------------------------------------------
// Lemmas on the stable sort
// ---------------------------------------------------------------------------

proof fn lemma_filter_none<A>(s: Seq<A>, p: spec_fn(A) -> bool)
    requires
        forall|i: int| 0 <= i < s.len() ==> !p(#[trigger] s[i]),
    ensures
        s.filter(p) == Seq::<A>::empty(),
    decreases s.len(),
{
    reveal(Seq::filter);
    if s.len() > 0 {
        lemma_filter_none(s.drop_last(), p);
    }
}

proof fn lemma_filter_single<A>(x: A, p: spec_fn(A) -> bool)
    ensures
        seq![x].filter(p) == if p(x) {
            seq![x]
        } else {
            Seq::<A>::empty()
        },
{
    reveal(Seq::filter);
    assert(seq![x].drop_last() =~= Seq::<A>::empty());
    lemma_filter_none(Seq::<A>::empty(), p);
}

/// Inserting `x` after every quality of resolution at least its own keeps
/// the order and appends `x` to the qualities of its resolution.
proof fn lemma_insert_stable(s: Seq<VideoQualityView>, x: VideoQualityView, p: int)
    requires
        sorted_desc(s),
        0 <= p <= s.len(),
        forall|j: int| 0 <= j < p ==> res_key(#[trigger] s[j]) >= res_key(x),
        forall|j: int| p <= j < s.len() ==> res_key(#[trigger] s[j]) < res_key(x),
    ensures
        sorted_desc(s.insert(p, x)),
        forall|k: u32|
            #[trigger] with_key(s.insert(p, x), k) == if res_key(x) == k {
                with_key(s, k).push(x)
            } else {
                with_key(s, k)
            },
{
    let t = s.insert(p, x);
    assert forall|i: int, j: int| 0 <= i < j < t.len() implies res_key(#[trigger] t[i]) >= res_key(
        #[trigger] t[j],
    ) by {
        if i < p {
            assert(t[i] == s[i]);
            if j < p {
                assert(t[j] == s[j]);
            } else if j > p {
                assert(t[j] == s[j - 1]);
            }
        } else if i == p {
            assert(t[j] == s[j - 1]);
        } else {
            assert(t[i] == s[i - 1]);
            assert(t[j] == s[j - 1]);
        }
    }
    let a = s.take(p);
    let b = s.skip(p);
    assert(s =~= a + b);
    assert(t =~= a + seq![x] + b);
    assert forall|k: u32| #[trigger]
        with_key(t, k) == if res_key(x) == k {
            with_key(s, k).push(x)
        } else {
            with_key(s, k)
        } by {
        let pk = |q: VideoQualityView| res_key(q) == k;
        Seq::filter_distributes_over_add(a + seq![x], b, pk);
        Seq::filter_distributes_over_add(a, seq![x], pk);
        Seq::filter_distributes_over_add(a, b, pk);
        lemma_filter_single(x, pk);
        if res_key(x) == k {
            assert forall|i: int| 0 <= i < b.len() implies !pk(#[trigger] b[i]) by {
                assert(b[i] == s[p + i]);
            }
            lemma_filter_none(b, pk);
            assert(a.filter(pk) + seq![x] + Seq::<VideoQualityView>::empty() =~= (a.filter(pk)
                + Seq::<VideoQualityView>::empty()).push(x));
        } else {
            assert(a.filter(pk) + Seq::<VideoQualityView>::empty() + b.filter(pk) =~= a.filter(
                pk,
            ) + b.filter(pk));
        }
    }
}

// ---------------------------------------------------------------------------
// Executable code
// ---------------------------------------------------------------------------

/// The text of `x`, or `d` when it is not a string.
fn text_or_exec(x: &JsonScalar, d: &str) -> (r: String)
    ensures
        r@ == text_or(x@, d@),
{
    match x {
        JsonScalar::Str(s) => s.clone(),
        _ => d.to_owned(),
    }
}

/// `as_str().map(|s| s.to_string())`.
fn text_opt(x: &JsonScalar) -> (r: Option<String>)
    ensures
        opt_text(r) == x@.text(),
{
    match x {
        JsonScalar::Str(s) => Some(s.clone()),
        _ => None,
    }
}

fn has_codec_exec(x: &JsonScalar) -> (r: bool)
    ensures
        r == has_codec(x@),
{
    match x {
        JsonScalar::Str(s) => !text_eq(s.as_str(), "none"),
        _ => false,
    }
}

fn lacks_codec_exec(x: &JsonScalar) -> (r: bool)
    ensures
        r == lacks_codec(x@),
{
    match x {
        JsonScalar::Str(s) => text_eq(s.as_str(), "none"),
        _ => true,
    }
}

/// The quality that one entry of `formats` describes.
pub fn quality_from_format(f: &FormatJson) -> (r: VideoQuality)
    ensures
        r@ == quality_view_of(f@),
{
    let itag: u32 = match &f.format_id {
        JsonScalar::Str(s) => {
            let cs = chars_of(s.as_str());
            match parse_u32_chars(&cs) {
                Some(n) => n,
                None => 0,
            }
        },
        _ => 0,
    };
    let fps = match f.fps.as_u64() {
        Some(n) => Some(n as u32),
        None => None,
    };
    let filesize = if f.filesize.is_null() {
        f.filesize_approx.as_u64()
    } else {
        f.filesize.as_u64()
    };
    VideoQuality {
        itag,
        format_id: text_or_exec(&f.format_id, "unknown"),
        format_note: text_or_exec(&f.format_note, ""),
        extension: text_or_exec(&f.ext, "mp4"),
        resolution: text_or_exec(&f.resolution, "unknown"),
        fps,
        vcodec: text_or_exec(&f.vcodec, "none"),
        acodec: text_or_exec(&f.acodec, "none"),
        filesize,
        is_video_only: has_codec_exec(&f.vcodec) && lacks_codec_exec(&f.acodec),
        is_audio_only: has_codec_exec(&f.acodec) && lacks_codec_exec(&f.vcodec),
    }
}

/// Sorts by resolution, highest first, keeping the order of qualities of
/// equal resolution (`sort_by` on the resolution value, reversed).
pub fn sort_by_resolution(items: &Vec<VideoQuality>) -> (r: Vec<VideoQuality>)
    ensures
        stable_sort_of(views(r@), views(items@)),
{
    let resolver = VideoResolver;
    let mut out: Vec<VideoQuality> = Vec::new();
    let mut keys: Vec<u32> = Vec::new();
    let mut i: usize = 0;
    while i < items.len()
        invariant
            i <= items.len(),
            out@.len() == i,
            keys@.len() == out@.len(),
            forall|j: int| 0 <= j < keys@.len() ==> keys@[j] == res_key(#[trigger] out@[j]@),
            sorted_desc(views(out@)),
            forall|k: u32| #[trigger]
                with_key(views(out@), k) == with_key(views(items@).take(i as int), k),
        decreases items.len() - i,
    {
        let x = items[i].clone();
        let kx = resolver.parse_resolution(x.resolution.as_str());
        let mut p: usize = 0;
        while p < out.len() && keys[p] >= kx
            invariant
                p <= out@.len(),
                keys@.len() == out@.len(),
                forall|j: int| 0 <= j < p ==> keys@[j] >= kx,
            decreases out@.len() - p,
        {
            p += 1;
        }
        let ghost before = views(out@);
        proof {
            assert forall|j: int| 0 <= j < p implies res_key(#[trigger] before[j]) >= res_key(x@) by {
                assert(keys@[j] == res_key(out@[j]@));
            }
            assert forall|j: int| p <= j < before.len() implies res_key(#[trigger] before[j])
                < res_key(x@) by {
                assert(keys@[p as int] == res_key(out@[p as int]@));
                assert(keys@[j] == res_key(out@[j]@));
                assert(res_key(before[p as int]) >= res_key(before[j]) || p == j);
            }
            lemma_insert_stable(before, x@, p as int);
            let iv = views(items@);
            assert(iv.take(i + 1) == iv.take(i as int).push(x@));
            assert forall|k: u32| #[trigger]
                with_key(iv.take(i + 1), k) == if res_key(x@) == k {
                    with_key(iv.take(i as int), k).push(x@)
                } else {
                    with_key(iv.take(i as int), k)
                } by {
                iv.take(i as int).lemma_filter_push(x@, |q: VideoQualityView| res_key(q) == k);
            }
        }
        let ghost old_out = out@;
        let ghost old_keys = keys@;
        out.insert(p, x);
        keys.insert(p, kx);
        proof {
            assert(views(out@) =~= before.insert(p as int, x@));
            assert forall|j: int| 0 <= j < keys@.len() implies keys@[j] == res_key(
                #[trigger] out@[j]@,
            ) by {
                if j < p {
                    assert(out@[j] == old_out[j] && keys@[j] == old_keys[j]);
                } else if j > p {
                    assert(out@[j] == old_out[j - 1] && keys@[j] == old_keys[j - 1]);
                }
            }
        }
        i += 1;
    }
    proof {
        assert(views(items@).take(i as int) =~= views(items@));
    }
    out
}

pub struct VideoResolver;

impl VideoResolver {
    pub fn new() -> (r: Self)
        ensures
            r == VideoResolver,
    {
        VideoResolver
    }

    /// The height named by a resolution such as `1920x1080`.
    pub fn parse_resolution(&self, resolution: &str) -> (r: u32)
        ensures
            r == resolution_value(resolution@),
    {
        let cs = chars_of(resolution);
        let parts = split_chars(&cs, 'x');
        proof {
            crate::text::lemma_split_nonempty(cs@, 'x');
        }
        let last = trim_chars(&parts[parts.len() - 1]);
        match parse_u32_chars(&last) {
            Some(n) => n,
            None => 0,
        }
    }

    /// The qualities that the description lists, unknown ones dropped,
    /// highest resolution first (a stable sort).
    pub fn parse_qualities(&self, json: &VideoJson) -> (r: Vec<VideoQuality>)
        ensures
            stable_sort_of(views(r@), known_qualities(json@.formats)),
    {
        let mut items: Vec<VideoQuality> = Vec::new();
        let mut i: usize = 0;
        while i < json.formats.len()
            invariant
                i <= json.formats@.len(),
                views(items@) == known_qualities(json@.formats.take(i as int)),
            decreases json.formats@.len() - i,
        {
            let q = quality_from_format(&json.formats[i]);
            let keep = !text_eq(q.format_id.as_str(), "unknown");
            proof {
                let fs = json@.formats;
                let f = |x: FormatJsonView| quality_view_of(x);
                assert(fs[i as int] == json.formats@[i as int]@);
                assert(fs.take(i + 1).map_values(f) =~= fs.take(i as int).map_values(f).push(
                    q@,
                ));
                fs.take(i as int).map_values(f).lemma_filter_push(
                    q@,
                    |x: VideoQualityView| is_known(x),
                );
            }
            let ghost prev = items@;
            let ghost qv = q@;
            if keep {
                items.push(q);
                assert(views(items@) =~= views(prev).push(qv));
            }
            i += 1;
        }
        assert(json@.formats.take(i as int) =~= json@.formats);
        sort_by_resolution(&items)
    }

    /// The video that the description names, with the fallbacks of the
    /// download tool's missing fields.
    pub fn parse_video_info(&self, json: &VideoJson, url: &str) -> (r: Video)
        ensures
            video_matches(r, json@, url@),
    {
        let thumbnail = match &json.thumbnail {
            JsonScalar::Str(s) => s.clone(),
            _ => text_or_exec(&json.thumbnails_first_url, ""),
        };
        let duration: u64 = match json.duration.as_u64() {
            Some(n) => n,
            None => 0,
        };
        let channel = if json.uploader.is_null() {
            text_or_exec(&json.channel, "Unknown")
        } else {
            text_or_exec(&json.uploader, "Unknown")
        };
        Video {
            id: text_or_exec(&json.id, "unknown"),
            url: url.to_owned(),
            title: text_or_exec(&json.title, "Unknown Title"),
            thumbnail,
            duration: duration as u32,
            channel,
            view_count: json.view_count.as_u64(),
            upload_date: text_opt(&json.upload_date),
            description: text_opt(&json.description),
        }
    }

    /// The video and its qualities, from the tool's description of the
    /// video at `url`.
    pub fn video_info_from_json(&self, json: &VideoJson, url: &str) -> (r: VideoInfo)
        ensures
            info_matches(r, json@, url@),
    {
        let video = self.parse_video_info(json, url);
        let qualities = self.parse_qualities(json);
        VideoInfo::new(video, qualities)
    }

    /// The video and its qualities, from what the download tool printed
    /// for the video at `url` (its `--dump-json` output); `None` when that
    /// is not JSON.
    pub fn video_info_from_output(&self, stdout: &[u8], url: &str) -> (r: Option<VideoInfo>)
        ensures
            r is Some <==> video_json_of(stdout@) is Some,
            r matches Some(info) ==> info_matches(info, video_json_of(stdout@)->0, url@),
    {
        match parse_video_json(stdout) {
            Some(json) => Some(self.video_info_from_json(&json, url)),
            None => None,
        }
    }
}

impl Default for VideoResolver {
    fn default() -> (r: Self)
        ensures
            r == VideoResolver,
    {
        VideoResolver::new()
    }
}

impl VideoInfo {
    /// Splits the qualities into audio-only ones and the rest; the best
    /// quality is the first of the rest.
    pub fn new(video: Video, qualities: Vec<VideoQuality>) -> (r: Self)
        ensures
            r.video == video,
            r.qualities@ == qualities@,
            r.audio_only_qualities@ == audio_only(qualities@),
            r.video_qualities@ == not_audio_only(qualities@),
            r.best_quality == if r.video_qualities@.len() > 0 {
                Some(r.video_qualities@[0])
            } else {
                None
            },
    {
        let mut audio: Vec<VideoQuality> = Vec::new();
        let mut other: Vec<VideoQuality> = Vec::new();
        let mut i: usize = 0;
        while i < qualities.len()
            invariant
                i <= qualities@.len(),
                audio@ == audio_only(qualities@.take(i as int)),
                other@ == not_audio_only(qualities@.take(i as int)),
            decreases qualities@.len() - i,
        {
            let q = qualities[i].clone();
            proof {
                assert(qualities@.take(i + 1) == qualities@.take(i as int).push(q));
                qualities@.take(i as int).lemma_filter_push(q, |x: VideoQuality| x.is_audio_only);
                qualities@.take(i as int).lemma_filter_push(
                    q,
                    |x: VideoQuality| !x.is_audio_only,
                );
            }
            if q.is_audio_only {
                audio.push(q);
            } else {
                other.push(q);
            }
            i += 1;
        }
        assert(qualities@.take(i as int) =~= qualities@);
        let best = if other.len() > 0 {
            Some(other[0].clone())
        } else {
            None
        };
        VideoInfo {
            video,
            qualities,
            best_quality: best,
            audio_only_qualities: audio,
            video_qualities: other,
        }
    }
}

} // verus!
