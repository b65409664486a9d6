//! Properties that relate several operations of the library.

use vstd::prelude::*;
use crate::downloads::{first_with_id, lacks_id, with_progress, without_id};
use crate::progress::{DownloadProgress, SpeedView, is_progress_line, eta_value, number_or_zero, speed_value};
use crate::text::{
    all_digits, contains_text, digits_value, is_digit, lemma_parse_digits, occurs_at, remove_all, lemma_split_concat, lemma_split_without_sep,
    lemma_trim_unchanged, parse_u32_spec, parse_u64_spec, split, trim,
};
use crate::history::{DownloadHistory, HISTORY_LIMIT, add_result, first_entry_with_id, remove_result};
use crate::models::Download;
use crate::video::{
    FormatJsonView, JsonNode, Video, VideoJsonView, VideoQuality, VideoQualityView, audio_only,
    not_audio_only, quality_view_of, res_key, sorted_desc, stable_sort_of, video_matches, with_key,
};
use crate::engine::{download_args_spec, format_selector_spec, is_audio_format};
use crate::urls::{regex_compiles, regex_finds, search_outcomes, some_match, youtube_patterns};

verus! {

/// Removing the id of a download just recorded (into a history below its
/// limit) gives back the entries the history had before; only the totals
/// remember the download.
pub proof fn law_remove_undoes_add(
    h0: DownloadHistory,
    h1: DownloadHistory,
    h2: DownloadHistory,
    d: Download,
)
    requires
        h0.downloads@.len() < HISTORY_LIMIT,
        add_result(h0, h1, d),
        remove_result(h1, h2, d.id@),
    ensures
        h2.downloads@ == h0.downloads@,
        h2.total_downloads == h0.total_downloads + 1,
        h2.total_bytes_downloaded == h0.total_bytes_downloaded + d.downloaded_bytes,
{
    assert(first_entry_with_id(h1.downloads@, d.id@, 0));
    assert(h1.downloads@.remove(0) =~= h0.downloads@);
}

/// After a download is recorded the history holds at most `HISTORY_LIMIT`
/// entries, and below the limit no older entry is dropped.
pub proof fn law_history_bounded(h0: DownloadHistory, h1: DownloadHistory, d: Download)
    requires
        add_result(h0, h1, d),
    ensures
        h1.downloads@.len() <= HISTORY_LIMIT,
        h1.downloads@.len() >= 1,
        h0.downloads@.len() < HISTORY_LIMIT ==> h1.downloads@.drop_first() == h0.downloads@,
{
    if h0.downloads@.len() < HISTORY_LIMIT {
        assert(h1.downloads@.drop_first() =~= h0.downloads@);
    }
}

proof fn lemma_filter_all<A>(s: Seq<A>, p: spec_fn(A) -> bool)
    requires
        forall|i: int| 0 <= i < s.len() ==> p(#[trigger] s[i]),
    ensures
        s.filter(p) == s,
    decreases s.len(),
{
    reveal(Seq::filter);
    if s.len() > 0 {
        lemma_filter_all(s.drop_last(), p);
        assert(s.drop_last().push(s.last()) =~= s);
    }
}

/// A download tracked under an id that no other tracked download has is
/// gone after its id is released, and the others stay, in order.
pub proof fn law_release_after_track(s: Seq<Download>, d: Download)
    requires
        lacks_id(s, d.id@),
    ensures
        without_id(s.push(d), d.id@) == s,
{
    let p = |x: Download| x.id@ != d.id@;
    s.lemma_filter_push(d, p);
    lemma_filter_all(s, p);
}

proof fn lemma_filter_split_len<A>(s: Seq<A>, p: spec_fn(A) -> bool, q: spec_fn(A) -> bool)
    requires
        forall|x: A| #[trigger] q(x) == !p(x),
    ensures
        s.filter(p).len() + s.filter(q).len() == s.len(),
    decreases s.len(),
{
    reveal(Seq::filter);
    if s.len() > 0 {
        lemma_filter_split_len(s.drop_last(), p, q);
    }
}

/// Every quality is either audio-only or not: the two lists split the
/// qualities between them, each keeping only its kind.
pub proof fn law_qualities_partition(q: Seq<VideoQuality>)
    ensures
        audio_only(q).len() + not_audio_only(q).len() == q.len(),
        forall|i: int| 0 <= i < audio_only(q).len() ==> (#[trigger] audio_only(q)[i]).is_audio_only,
        forall|i: int|
            0 <= i < not_audio_only(q).len() ==> !(#[trigger] not_audio_only(q)[i]).is_audio_only,
{
    let p = |x: VideoQuality| x.is_audio_only;
    let np = |x: VideoQuality| !x.is_audio_only;
    lemma_filter_split_len(q, p, np);
    assert forall|i: int| 0 <= i < audio_only(q).len() implies (#[trigger] audio_only(
        q,
    )[i]).is_audio_only by {
        q.lemma_filter_pred(p, i);
    }
    assert forall|i: int| 0 <= i < not_audio_only(q).len() implies !(#[trigger] not_audio_only(
        q,
    )[i]).is_audio_only by {
        q.lemma_filter_pred(np, i);
    }
}

proof fn lemma_with_key_front(s: Seq<VideoQualityView>, k: u32)
    requires
        s.len() > 0,
    ensures
        with_key(s, k) == (if res_key(s[0]) == k {
            seq![s[0]]
        } else {
            Seq::<VideoQualityView>::empty()
        }) + with_key(s.drop_first(), k),
{
    assert(s =~= seq![s[0]] + s.drop_first());
    s.drop_first().lemma_filter_prepend(s[0], |q: VideoQualityView| res_key(q) == k);
}

/// Some element of `s` has resolution value `k` when `with_key(s, k)` is
/// not empty; in a sorted `s` the first element's value is then at least `k`.
proof fn lemma_first_key_at_least(s: Seq<VideoQualityView>, k: u32)
    requires
        sorted_desc(s),
        with_key(s, k).len() > 0,
    ensures
        s.len() > 0,
        res_key(s[0]) >= k,
{
    let p = |q: VideoQualityView| res_key(q) == k;
    let x = with_key(s, k)[0];
    s.lemma_filter_pred(p, 0);
    assert(with_key(s, k).contains(x));
    s.lemma_filter_contains_rev(p, x);
    let j = choose|j: int| 0 <= j < s.len() && s[j] == x;
    if j > 0 {
        assert(res_key(s[0]) >= res_key(s[j]));
    }
}

proof fn lemma_sorted_unique(a: Seq<VideoQualityView>, b: Seq<VideoQualityView>)
    requires
        sorted_desc(a),
        sorted_desc(b),
        a.len() == b.len(),
        forall|k: u32| #[trigger] with_key(a, k) == with_key(b, k),
    ensures
        a == b,
    decreases a.len(),
{
    if a.len() == 0 {
        assert(a =~= b);
    } else {
        let ka = res_key(a[0]);
        let kb = res_key(b[0]);
        lemma_with_key_front(a, ka);
        lemma_with_key_front(b, kb);
        assert(with_key(b, ka) == with_key(a, ka));
        assert(with_key(a, kb) == with_key(b, kb));
        lemma_first_key_at_least(b, ka);
        lemma_first_key_at_least(a, kb);
        let k0 = ka;
        lemma_with_key_front(b, k0);
        let a1 = a.drop_first();
        let b1 = b.drop_first();
        assert(with_key(a, k0)[0] == a[0]);
        assert(with_key(b, k0)[0] == b[0]);
        assert forall|k: u32| #[trigger] with_key(a1, k) == with_key(b1, k) by {
            lemma_with_key_front(a, k);
            lemma_with_key_front(b, k);
            if k == k0 {
                assert(with_key(a1, k) =~= with_key(a, k).drop_first());
                assert(with_key(b1, k) =~= with_key(b, k).drop_first());
            } else {
                assert(with_key(a1, k) =~= with_key(a, k));
                assert(with_key(b1, k) =~= with_key(b, k));
            }
        }
        assert forall|i: int, j: int| 0 <= i < j < a1.len() implies res_key(#[trigger] a1[i])
            >= res_key(#[trigger] a1[j]) by {
            assert(a1[i] == a[i + 1] && a1[j] == a[j + 1]);
        }
        assert forall|i: int, j: int| 0 <= i < j < b1.len() implies res_key(#[trigger] b1[i])
            >= res_key(#[trigger] b1[j]) by {
            assert(b1[i] == b[i + 1] && b1[j] == b[j + 1]);
        }
        lemma_sorted_unique(a1, b1);
        assert(ka == kb);
        assert(with_key(a, k0) == with_key(b, k0));
        assert(a[0] == b[0]);
        assert forall|i: int| 0 <= i < a.len() implies a[i] == b[i] by {
            if i > 0 {
                assert(a[i] == a1[i - 1] && b[i] == b1[i - 1]);
            }
        }
        assert(a =~= b);
    }
}

/// The order of the qualities is determined: any two stable sorts of the
/// same qualities by resolution are the same list.
pub proof fn law_quality_order_unique(
    a: Seq<VideoQualityView>,
    b: Seq<VideoQualityView>,
    input: Seq<VideoQualityView>,
)
    requires
        stable_sort_of(a, input),
        stable_sort_of(b, input),
    ensures
        a == b,
{
    assert forall|k: u32| #[trigger] with_key(a, k) == with_key(b, k) by {
        assert(with_key(a, k) == with_key(input, k));
        assert(with_key(b, k) == with_key(input, k));
    }
    lemma_sorted_unique(a, b);
}

/// A download tracked under an id that no other tracked download has is
/// the one that progress reports under that id reach, and once it is
/// finished the other downloads are left as they were.
pub proof fn law_tracked_download_lifecycle(s: Seq<Download>, d: Download, p: DownloadProgress)
    requires
        lacks_id(s, d.id@),
        p.id@ == d.id@,
    ensures
        first_with_id(s.push(d), p.id@, s.len() as int),
        without_id(s.push(d).update(s.len() as int, with_progress(d, p)), d.id@) == s,
{
    let t = s.push(d);
    assert(t[s.len() as int] == d);
    assert forall|j: int| 0 <= j < s.len() implies (#[trigger] t[j]).id@ != p.id@ by {
        assert(t[j] == s[j]);
    }
    let e = with_progress(d, p);
    assert(t.update(s.len() as int, e) =~= s.push(e));
    law_release_after_track(s, e);
}

/// A field made of decimal digits whose value fits in `u64`.
pub open spec fn digit_field(s: Seq<char>) -> bool {
    &&& s.len() > 0
    &&& all_digits(s)
    &&& digits_value(s) <= u64::MAX
}

proof fn lemma_digit_field_value(s: Seq<char>)
    requires
        digit_field(s),
    ensures
        number_or_zero(s) == digits_value(s),
        forall|i: int| 0 <= i < s.len() ==> s[i] != ':',
{
    lemma_parse_digits(s);
    assert forall|i: int| 0 <= i < s.len() implies s[i] != ':' by {
        assert(is_digit(s[i]));
    }
}

proof fn lemma_clock_text(t: Seq<char>)
    requires
        t.len() > 0,
        is_digit(t[0]),
        is_digit(t.last()),
    ensures
        trim(t) == t,
        t != "N/A"@,
{
    lemma_trim_unchanged(t);
    reveal_strlit("N/A");
    if t == "N/A"@ {
        assert(t[0] == 'N');
    }
}

/// ETA fields in `s`, `m:s` and `h:m:s` form (plain digits) count seconds,
/// minutes and hours.
pub proof fn law_eta_clock_format(h: Seq<char>, m: Seq<char>, s: Seq<char>)
    requires
        digit_field(h),
        digit_field(m),
        digit_field(s),
    ensures
        eta_value(s) == digits_value(s),
        eta_value(m + seq![':'] + s) == digits_value(m) * 60 + digits_value(s),
        eta_value(h + seq![':'] + m + seq![':'] + s) == digits_value(h) * 3600 + digits_value(m)
            * 60 + digits_value(s),
{
    lemma_digit_field_value(h);
    lemma_digit_field_value(m);
    lemma_digit_field_value(s);
    lemma_split_without_sep(h, ':');
    lemma_split_without_sep(m, ':');
    lemma_split_without_sep(s, ':');
    assert(is_digit(s[0]) && is_digit(s.last()) && is_digit(m[0]) && is_digit(h[0]));

    lemma_clock_text(s);

    let ms = m + seq![':'] + s;
    assert(ms[0] == m[0] && ms.last() == s.last());
    lemma_clock_text(ms);
    lemma_split_concat(m, ':', s);
    assert(split(ms, ':') =~= seq![m, s]);

    let hms = h + seq![':'] + ms;
    assert(h + seq![':'] + m + seq![':'] + s =~= hms);
    assert(hms[0] == h[0] && hms.last() == s.last());
    lemma_clock_text(hms);
    lemma_split_concat(h, ':', ms);
    assert(split(hms, ':') =~= seq![h, m, s]);
}

proof fn lemma_no_occurrence(s: Seq<char>, pat: Seq<char>)
    requires
        pat.len() > 0,
        forall|i: int| 0 <= i < s.len() ==> s[i] != pat[0],
    ensures
        !contains_text(s, pat),
{
    assert forall|i: int| !occurs_at(s, pat, i) by {
        if occurs_at(s, pat, i) {
            assert(s.subrange(i, i + pat.len())[0] == pat[0]);
        }
    }
}

proof fn lemma_remove_trailing_unit(x: Seq<char>, unit: Seq<char>)
    requires
        unit.len() > 0,
        all_digits(x),
        !is_digit(unit[0]),
    ensures
        remove_all(x + unit, unit) == x,
    decreases x.len(),
{
    let s = x + unit;
    if x.len() == 0 {
        assert(s =~= unit);
        assert(s.take(unit.len() as int) =~= unit);
        assert(s.skip(unit.len() as int) =~= Seq::<char>::empty());
        assert(remove_all(Seq::<char>::empty(), unit) == Seq::<char>::empty());
    } else {
        assert(s.take(unit.len() as int)[0] == x[0]);
        assert(is_digit(x[0]));
        assert(s.take(unit.len() as int) != unit);
        assert(s.skip(1) =~= x.drop_first() + unit);
        lemma_remove_trailing_unit(x.drop_first(), unit);
        assert(seq![s[0]] + x.drop_first() =~= x);
    }
}

/// How a speed field made of a number and a unit is read: plain numbers
/// are bytes per second, KiB/s are multiplied by 1024, and MiB/s and
/// GiB/s hand on the number's text.
pub proof fn law_speed_units(d: Seq<char>)
    requires
        digit_field(d),
    ensures
        speed_value(d) == SpeedView::Exact(digits_value(d) as int),
        speed_value(d + "KiB/s"@) == SpeedView::Exact((digits_value(d) * 1024) as int),
        speed_value(d + "MiB/s"@) == SpeedView::Mebibytes(d),
        speed_value(d + "GiB/s"@) == SpeedView::Gibibytes(d),
{
    reveal_strlit("KiB");
    reveal_strlit("MiB");
    reveal_strlit("GiB");
    reveal_strlit("KiB/s");
    reveal_strlit("MiB/s");
    reveal_strlit("GiB/s");
    lemma_digit_field_value(d);
    assert(is_digit(d[0]) && is_digit(d.last()));
    assert forall|i: int| 0 <= i < d.len() implies d[i] != 'K' && d[i] != 'M' && d[i] != 'G' by {
        assert(is_digit(d[i]));
    }
    lemma_trim_unchanged(d);
    lemma_no_occurrence(d, "KiB"@);
    lemma_no_occurrence(d, "MiB"@);
    lemma_no_occurrence(d, "GiB"@);

    let k = d + "KiB/s"@;
    assert(k[0] == d[0] && k.last() == 's');
    lemma_trim_unchanged(k);
    assert(occurs_at(k, "KiB"@, d.len() as int)) by {
        assert(k.subrange(d.len() as int, d.len() + 3int) =~= "KiB"@);
    }
    lemma_remove_trailing_unit(d, "KiB/s"@);

    let m = d + "MiB/s"@;
    assert(m[0] == d[0] && m.last() == 's');
    lemma_trim_unchanged(m);
    assert forall|i: int| 0 <= i < m.len() implies m[i] != 'K' by {
        if i < d.len() {
            assert(m[i] == d[i]);
        }
    }
    lemma_no_occurrence(m, "KiB"@);
    assert(occurs_at(m, "MiB"@, d.len() as int)) by {
        assert(m.subrange(d.len() as int, d.len() + 3int) =~= "MiB"@);
    }
    lemma_remove_trailing_unit(d, "MiB/s"@);

    let g = d + "GiB/s"@;
    assert(g[0] == d[0] && g.last() == 's');
    lemma_trim_unchanged(g);
    assert forall|i: int| 0 <= i < g.len() implies g[i] != 'K' && g[i] != 'M' by {
        if i < d.len() {
            assert(g[i] == d[i]);
        }
    }
    lemma_no_occurrence(g, "KiB"@);
    lemma_no_occurrence(g, "MiB"@);
    assert(occurs_at(g, "GiB"@, d.len() as int)) by {
        assert(g.subrange(d.len() as int, d.len() + 3int) =~= "GiB"@);
    }
    lemma_remove_trailing_unit(d, "GiB/s"@);
}

/// `f` has no field separator in it.
pub open spec fn bar_free(f: Seq<char>) -> bool {
    forall|i: int| 0 <= i < f.len() ==> f[i] != '|'
}

/// The line that the progress template prints for five fields.
pub open spec fn progress_text(
    a: Seq<char>,
    b: Seq<char>,
    c: Seq<char>,
    d: Seq<char>,
    e: Seq<char>,
) -> Seq<char> {
    a + seq!['|'] + b + seq!['|'] + c + seq!['|'] + d + seq!['|'] + e
}

/// A line printed by the progress template from five fields without `|`
/// is a progress line whose pieces are those fields; digit fields for the
/// byte counts are read as their values.
pub proof fn law_progress_line_pieces(
    a: Seq<char>,
    b: Seq<char>,
    c: Seq<char>,
    d: Seq<char>,
    e: Seq<char>,
)
    requires
        bar_free(a),
        bar_free(b),
        bar_free(c),
        bar_free(d),
        bar_free(e),
    ensures
        is_progress_line(progress_text(a, b, c, d, e)),
        split(progress_text(a, b, c, d, e), '|') == seq![a, b, c, d, e],
        digit_field(d) ==> parse_u64_spec(trim(d)) == Some(digits_value(d) as u64),
        digit_field(e) ==> parse_u64_spec(trim(e)) == Some(digits_value(e) as u64),
{
    lemma_split_without_sep(a, '|');
    lemma_split_without_sep(b, '|');
    lemma_split_without_sep(c, '|');
    lemma_split_without_sep(d, '|');
    lemma_split_without_sep(e, '|');
    let de = d + seq!['|'] + e;
    lemma_split_concat(d, '|', e);
    let cde = c + seq!['|'] + de;
    lemma_split_concat(c, '|', de);
    let bcde = b + seq!['|'] + cde;
    lemma_split_concat(b, '|', cde);
    let line = a + seq!['|'] + bcde;
    lemma_split_concat(a, '|', bcde);
    assert(progress_text(a, b, c, d, e) =~= line);
    assert(split(line, '|') =~= seq![a, b, c, d, e]);
    if digit_field(d) {
        assert(is_digit(d[0]) && is_digit(d.last()));
        lemma_trim_unchanged(d);
        lemma_parse_digits(d);
    }
    if digit_field(e) {
        assert(is_digit(e[0]) && is_digit(e.last()));
        lemma_trim_unchanged(e);
        lemma_parse_digits(e);
    }
}

/// A field names a codec: it is a string other than `none`.
pub open spec fn names_codec(x: JsonNode) -> bool {
    x.text() matches Some(c) && c != "none"@
}

/// A quality is video-only exactly when its video codec field names a
/// codec and its audio codec field does not (it is missing, not a string,
/// or `none`), and audio-only the other way round.  So a format that
/// carries audio is never video-only, one that carries video is never
/// audio-only, and no quality is both.
pub proof fn law_stream_kinds(f: FormatJsonView)
    ensures
        quality_view_of(f).is_video_only <==> names_codec(f.vcodec) && !names_codec(f.acodec),
        quality_view_of(f).is_audio_only <==> names_codec(f.acodec) && !names_codec(f.vcodec),
        names_codec(f.acodec) ==> !quality_view_of(f).is_video_only,
        names_codec(f.vcodec) ==> !quality_view_of(f).is_audio_only,
        !(quality_view_of(f).is_video_only && quality_view_of(f).is_audio_only),
{
}

/// What each field of a resolved video is, field by field: the URL asked
/// for; the description's `thumbnail` when it is a string, and only
/// otherwise the URL of the first entry of `thumbnails` (else empty); the
/// id, title and uploader (or, when the uploader is null, the channel) when
/// they are strings, else `unknown`, `Unknown Title`, `Unknown`; the
/// duration when it is a whole number (kept to its low 32 bits), else 0;
/// the view count, upload date and description when present.
pub proof fn law_video_fields(v: Video, json: VideoJsonView, url: Seq<char>)
    requires
        video_matches(v, json, url),
    ensures
        v.url@ == url,
        json.thumbnail matches JsonNode::Str(t) ==> v.thumbnail@ == t,
        !(json.thumbnail is Str) ==> (json.thumbnails_first_url matches JsonNode::Str(u)
            ==> v.thumbnail@ == u),
        !(json.thumbnail is Str) && !(json.thumbnails_first_url is Str) ==> v.thumbnail@
            == Seq::<char>::empty(),
        json.id matches JsonNode::Str(i) ==> v.id@ == i,
        !(json.id is Str) ==> v.id@ == "unknown"@,
        json.title matches JsonNode::Str(t) ==> v.title@ == t,
        !(json.title is Str) ==> v.title@ == "Unknown Title"@,
        json.uploader matches JsonNode::Str(u) ==> v.channel@ == u,
        json.uploader is Null ==> (json.channel matches JsonNode::Str(c) ==> v.channel@ == c),
        json.uploader is Null && !(json.channel is Str) ==> v.channel@ == "Unknown"@,
        !(json.uploader is Null) && !(json.uploader is Str) ==> v.channel@ == "Unknown"@,
        json.duration matches JsonNode::UInt(n) ==> v.duration == n as u32,
        !(json.duration is UInt) ==> v.duration == 0,
        json.view_count matches JsonNode::UInt(n) ==> v.view_count == Some(n),
        !(json.view_count is UInt) ==> v.view_count is None,
        json.upload_date matches JsonNode::Str(d) ==> (v.upload_date matches Some(x) && x@ == d),
        !(json.upload_date is Str) ==> v.upload_date is None,
        json.description matches JsonNode::Str(d) ==> (v.description matches Some(x) && x@ == d),
        !(json.description is Str) ==> v.description is None,
{
    reveal_strlit("");
}

/// The download tool's command line: `-f` is followed by the format
/// selector of the request's quality and container format (quality first:
/// a quality that is none of the known names is passed on as it is), `-o`
/// by the output template, and the URL comes eleventh; three more arguments
/// extract the audio of audio formats, and one more overwrites existing
/// files when they are not skipped.
pub proof fn law_download_command_line(
    url: Seq<char>,
    format: Seq<char>,
    quality: Seq<char>,
    output: Seq<char>,
    skip_existing: bool,
)
    ensures
        ({
            let a = download_args_spec(url, format, quality, output, skip_existing);
            &&& a.len() == 11 + (if is_audio_format(format) { 3int } else { 0int }) + (if skip_existing {
                0int
            } else {
                1int
            })
            &&& a[4] == "-f"@
            &&& a[5] == format_selector_spec(quality, format)
            &&& a[6] == "-o"@
            &&& a[7] == output
            &&& a[10] == url
            &&& !(quality == "highest"@ || quality == "high"@ || quality == "medium"@ || quality
                == "low"@) ==> a[5] == quality
        }),
{
}

/// The qualities that the downloader knows by name.
pub open spec fn named_quality(q: Seq<char>) -> bool {
    q == "highest"@ || q == "high"@ || q == "medium"@ || q == "low"@
}

/// A text without the letter `x` holds no `[ext=` filter.
proof fn lemma_no_ext_filter(s: Seq<char>)
    requires
        forall|j: int| 0 <= j < s.len() ==> s[j] != 'x',
    ensures
        !contains_text(s, "[ext="@),
{
    reveal_strlit("[ext=");
    assert forall|i: int| !occurs_at(s, "[ext="@, i) by {
        if occurs_at(s, "[ext="@, i) {
            assert(s.subrange(i, i + 5)[2] == "[ext="@[2]);
            assert(s[i + 2] == 'x');
        }
    }
}

/// `pat` occurs in `s` at `i`.
proof fn lemma_occurs(s: Seq<char>, pat: Seq<char>, i: int)
    requires
        0 <= i,
        i + pat.len() <= s.len(),
        s.subrange(i, i + pat.len()) =~= pat,
    ensures
        contains_text(s, pat),
{
    assert(occurs_at(s, pat, i));
}

/// How the format selector depends on the quality and the container: only
/// the `mp4` container changes it, and then it asks for `mp4` video with
/// `m4a` audio (`[ext=mp4]`), while any other container gets no `[ext=...]`
/// filter at all; the named qualities cap the height at 1080, 720 and 480
/// lines (`highest` does not cap it), and a quality that has no name is
/// passed on as it is, whatever the container.
pub proof fn law_format_selector(quality: Seq<char>, format: Seq<char>, other_format: Seq<char>)
    ensures
        format != "mp4"@ && other_format != "mp4"@ ==> format_selector_spec(quality, format)
            == format_selector_spec(quality, other_format),
        !named_quality(quality) ==> format_selector_spec(quality, format) == quality,
        named_quality(quality) && format != "mp4"@ ==> !contains_text(
            format_selector_spec(quality, format),
            "[ext="@,
        ),
        named_quality(quality) && quality != "highest"@ ==> contains_text(
            format_selector_spec(quality, "mp4"@),
            "[ext=mp4]"@,
        ),
        quality == "highest"@ ==> !contains_text(format_selector_spec(quality, format), "[height<="@),
        quality == "high"@ ==> contains_text(format_selector_spec(quality, format), "[height<=1080]"@),
        quality == "medium"@ ==> contains_text(format_selector_spec(quality, format), "[height<=720]"@),
        quality == "low"@ ==> contains_text(format_selector_spec(quality, format), "[height<=480]"@),
{
    reveal_strlit("mp4");
    reveal_strlit("highest");
    reveal_strlit("high");
    reveal_strlit("medium");
    reveal_strlit("low");
    reveal_strlit("[ext=mp4]");
    reveal_strlit("[height<=");
    reveal_strlit("[height<=1080]");
    reveal_strlit("[height<=720]");
    reveal_strlit("[height<=480]");
    let best = "bestvideo+bestaudio/best"@;
    let p1080 = "bestvideo[height<=1080]+bestaudio/best[height<=1080]"@;
    let p720 = "bestvideo[height<=720]+bestaudio/best[height<=720]"@;
    let p480 = "bestvideo[height<=480]+bestaudio/best[height<=480]"@;
    let m1080 = "bestvideo[height<=1080][ext=mp4]+bestaudio[ext=m4a]/best[height<=1080][ext=mp4]"@;
    let m720 = "bestvideo[height<=720][ext=mp4]+bestaudio[ext=m4a]/best[height<=720][ext=mp4]"@;
    let m480 = "bestvideo[height<=480][ext=mp4]+bestaudio[ext=m4a]/best[height<=480][ext=mp4]"@;
    reveal_strlit("bestvideo+bestaudio/best");
    reveal_strlit("bestvideo[height<=1080]+bestaudio/best[height<=1080]");
    reveal_strlit("bestvideo[height<=720]+bestaudio/best[height<=720]");
    reveal_strlit("bestvideo[height<=480]+bestaudio/best[height<=480]");
    reveal_strlit("bestvideo[height<=1080][ext=mp4]+bestaudio[ext=m4a]/best[height<=1080][ext=mp4]");
    reveal_strlit("bestvideo[height<=720][ext=mp4]+bestaudio[ext=m4a]/best[height<=720][ext=mp4]");
    reveal_strlit("bestvideo[height<=480][ext=mp4]+bestaudio[ext=m4a]/best[height<=480][ext=mp4]");
    if named_quality(quality) && format != "mp4"@ {
        let s = format_selector_spec(quality, format);
        assert forall|j: int| 0 <= j < s.len() implies s[j] != 'x' by {}
        lemma_no_ext_filter(s);
    }
    if quality == "highest"@ {
        assert forall|i: int| !occurs_at(best, "[height<="@, i) by {
            if occurs_at(best, "[height<="@, i) {
                assert(best.subrange(i, i + 9)[0] == '[');
                assert(best[i] == '[');
            }
        }
    }
    if quality == "high"@ {
        assert("high"@.len() != "highest"@.len());
        assert(format_selector_spec(quality, format) == if format == "mp4"@ {
            m1080
        } else {
            p1080
        });
        lemma_occurs(p1080, "[height<=1080]"@, 9);
        lemma_occurs(m1080, "[height<=1080]"@, 9);
        lemma_occurs(m1080, "[ext=mp4]"@, 23);
    }
    if quality == "medium"@ {
        assert("medium"@.len() != "highest"@.len());
        assert("medium"@.len() != "high"@.len());
        assert(format_selector_spec(quality, format) == if format == "mp4"@ {
            m720
        } else {
            p720
        });
        lemma_occurs(p720, "[height<=720]"@, 9);
        lemma_occurs(m720, "[height<=720]"@, 9);
        lemma_occurs(m720, "[ext=mp4]"@, 22);
    }
    if quality == "low"@ {
        assert("low"@.len() != "highest"@.len());
        assert("low"@.len() != "high"@.len());
        assert("low"@.len() != "medium"@.len());
        assert(format_selector_spec(quality, format) == if format == "mp4"@ {
            m480
        } else {
            p480
        });
        lemma_occurs(p480, "[height<=480]"@, 9);
        lemma_occurs(m480, "[height<=480]"@, 9);
        lemma_occurs(m480, "[ext=mp4]"@, 22);
    }
}

/// A URL pattern: an optional `http://` or `https://`, then `host` (which
/// holds its own optional prefix), then `path`, then an id of word
/// characters and `-`.
pub open spec fn url_shape(host: Seq<char>, path: Seq<char>) -> Seq<char> {
    "(?:https?://)?"@ + host + path + "[\\w-]+"@
}

/// The regex of `pattern` compiles and matches somewhere in `url`.
pub open spec fn shape_finds(pattern: Seq<char>, url: Seq<char>) -> bool {
    regex_compiles(pattern) && regex_finds(pattern, url)
}

pub open spec fn watch_shape() -> Seq<char> {
    url_shape("(?:www\\.)?youtube\\.com/"@, "watch\\?v="@)
}

pub open spec fn short_link_shape() -> Seq<char> {
    url_shape("(?:www\\.)?youtu\\.be/"@, ""@)
}

pub open spec fn shorts_shape() -> Seq<char> {
    url_shape("(?:www\\.)?youtube\\.com/"@, "shorts/"@)
}

pub open spec fn playlist_shape() -> Seq<char> {
    url_shape("(?:www\\.)?youtube\\.com/"@, "playlist\\?list="@)
}

pub open spec fn mobile_watch_shape() -> Seq<char> {
    url_shape("(?:m\\.)?youtube\\.com/"@, "watch\\?v="@)
}

/// A URL is accepted exactly when one of five shapes is found in it:
/// watch pages, `youtu.be` short links, shorts and playlists, each with or
/// without a scheme and with or without `www.`, and mobile (`m.`) watch
/// pages.
pub proof fn law_accepted_urls(url: Seq<char>)
    ensures
        shape_finds(watch_shape(), url) ==> some_match(search_outcomes(url)),
        shape_finds(short_link_shape(), url) ==> some_match(search_outcomes(url)),
        shape_finds(shorts_shape(), url) ==> some_match(search_outcomes(url)),
        shape_finds(playlist_shape(), url) ==> some_match(search_outcomes(url)),
        shape_finds(mobile_watch_shape(), url) ==> some_match(search_outcomes(url)),
        some_match(search_outcomes(url)) ==> shape_finds(watch_shape(), url) || shape_finds(
            short_link_shape(),
            url,
        ) || shape_finds(shorts_shape(), url) || shape_finds(playlist_shape(), url)
            || shape_finds(mobile_watch_shape(), url),
{
    reveal_strlit("(?:https?://)?");
    reveal_strlit("[\\w-]+");
    reveal_strlit("(?:www\\.)?youtube\\.com/");
    reveal_strlit("(?:www\\.)?youtu\\.be/");
    reveal_strlit("(?:m\\.)?youtube\\.com/");
    reveal_strlit("watch\\?v=");
    reveal_strlit("");
    reveal_strlit("shorts/");
    reveal_strlit("playlist\\?list=");
    reveal_strlit("(?:https?://)?(?:www\\.)?youtube\\.com/watch\\?v=[\\w-]+");
    reveal_strlit("(?:https?://)?(?:www\\.)?youtu\\.be/[\\w-]+");
    reveal_strlit("(?:https?://)?(?:www\\.)?youtube\\.com/shorts/[\\w-]+");
    reveal_strlit("(?:https?://)?(?:www\\.)?youtube\\.com/playlist\\?list=[\\w-]+");
    reveal_strlit("(?:https?://)?(?:m\\.)?youtube\\.com/watch\\?v=[\\w-]+");
    let ps = youtube_patterns();
    let shapes = seq![
        watch_shape(),
        short_link_shape(),
        shorts_shape(),
        playlist_shape(),
        mobile_watch_shape(),
    ];
    assert(ps[0] =~= shapes[0]);
    assert(ps[1] =~= shapes[1]);
    assert(ps[2] =~= shapes[2]);
    assert(ps[3] =~= shapes[3]);
    assert(ps[4] =~= shapes[4]);
    let o = search_outcomes(url);
    assert forall|k: int| 0 <= k < 5 implies (#[trigger] o[k] == Some(true)) == shape_finds(
        shapes[k],
        url,
    ) by {
        assert(ps[k] == shapes[k]);
    }
    if shape_finds(watch_shape(), url) {
        assert(o[0] == Some(true));
    }
    if shape_finds(short_link_shape(), url) {
        assert(o[1] == Some(true));
    }
    if shape_finds(shorts_shape(), url) {
        assert(o[2] == Some(true));
    }
    if shape_finds(playlist_shape(), url) {
        assert(o[3] == Some(true));
    }
    if shape_finds(mobile_watch_shape(), url) {
        assert(o[4] == Some(true));
    }
    if some_match(o) {
        let k = choose|k: int| 0 <= k < o.len() && o[k] == Some(true);
        assert(o[k] == Some(true));
    }
}

/// The other fields of a quality, field by field: the text fields when
/// they are strings, else `unknown` (id, resolution), empty (note), `mp4`
/// (extension) and `none` (codecs); the itag is the id read as a `u32`,
/// else 0; the frame rate when it is a whole number (low 32 bits); the file
/// size when it is a whole number, the approximate size only when the size
/// is null.
pub proof fn law_quality_fields(f: FormatJsonView)
    ensures
        ({
            let q = quality_view_of(f);
            &&& f.format_id matches JsonNode::Str(i) ==> q.format_id == i
            &&& !(f.format_id is Str) ==> q.format_id == "unknown"@
            &&& f.format_id matches JsonNode::Str(i) ==> (parse_u32_spec(i) matches Some(n)
                ==> q.itag == n)
            &&& f.format_id matches JsonNode::Str(i) ==> (parse_u32_spec(i) is None ==> q.itag
                == 0)
            &&& !(f.format_id is Str) ==> q.itag == 0
            &&& f.format_note matches JsonNode::Str(n) ==> q.format_note == n
            &&& !(f.format_note is Str) ==> q.format_note == Seq::<char>::empty()
            &&& f.ext matches JsonNode::Str(e) ==> q.extension == e
            &&& !(f.ext is Str) ==> q.extension == "mp4"@
            &&& f.resolution matches JsonNode::Str(r) ==> q.resolution == r
            &&& !(f.resolution is Str) ==> q.resolution == "unknown"@
            &&& f.vcodec matches JsonNode::Str(c) ==> q.vcodec == c
            &&& !(f.vcodec is Str) ==> q.vcodec == "none"@
            &&& f.acodec matches JsonNode::Str(c) ==> q.acodec == c
            &&& !(f.acodec is Str) ==> q.acodec == "none"@
            &&& f.fps matches JsonNode::UInt(n) ==> q.fps == Some(n as u32)
            &&& !(f.fps is UInt) ==> q.fps is None
            &&& f.filesize matches JsonNode::UInt(n) ==> q.filesize == Some(n)
            &&& f.filesize is Null ==> (f.filesize_approx matches JsonNode::UInt(n) ==> q.filesize
                == Some(n))
            &&& f.filesize is Null && !(f.filesize_approx is UInt) ==> q.filesize is None
            &&& !(f.filesize is Null) && !(f.filesize is UInt) ==> q.filesize is None
        }),
{
    reveal_strlit("");
}

} // verus!
