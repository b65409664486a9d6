//! The download tool's description of a video, read from the JSON it
//! prints.
//!
//! `serde_json` parses the bytes into a document; the library then reads
//! each field it looks at by its JSON pointer (RFC 6901), and the contracts
//! speak of the document as the node at each pointer.

use vstd::prelude::*;
use crate::text::{decimal_of, decimal_text};
use crate::video::{FormatJson, FormatJsonView, JsonNode, JsonScalar, VideoJson, VideoJsonView};

verus! {

#[verifier::external_type_specification]
#[verifier::external_body]
pub struct ExJsonValue(serde_json::Value);

/// What a parsed JSON document holds: the node at each pointer that names
/// something in it, as far as the library reads a node (a string, a number
/// that fits in `u64`, an array by its length, `null`, or something else).
pub uninterp spec fn json_content(doc: serde_json::Value) -> Map<Seq<char>, JsonNode>;

/// What the JSON document that `bytes` hold contains, or `None` when the
/// bytes are not a JSON document.
pub uninterp spec fn json_document_of(bytes: Seq<u8>) -> Option<Map<Seq<char>, JsonNode>>;

/// The node at `pointer`; `Null` where there is none.
pub open spec fn node_at(doc: Map<Seq<char>, JsonNode>, pointer: Seq<char>) -> JsonNode {
    if doc.contains_key(pointer) {
        doc[pointer]
    } else {
        JsonNode::Null
    }
}

/// `serde_json::from_slice::<Value>`: the document that `bytes` hold, or
/// `None` when they are not JSON.
#[verifier::external_body]
fn json_from_slice(bytes: &[u8]) -> (r: Option<serde_json::Value>)
    ensures
        r is None <==> json_document_of(bytes@) is None,
        r matches Some(doc) ==> json_document_of(bytes@) == Some(json_content(doc)),
{
    serde_json::from_slice::<serde_json::Value>(bytes).ok()
}

/// `Value::pointer`: the node that `pointer` names in `doc`, read as a
/// `JsonScalar` (`Number::as_u64` for a number).
#[verifier::external_body]
fn json_at(doc: &serde_json::Value, pointer: &str) -> (r: JsonScalar)
    ensures
        r@ == node_at(json_content(*doc), pointer@),
{
    match doc.pointer(pointer) {
        None | Some(serde_json::Value::Null) => JsonScalar::Null,
        Some(serde_json::Value::String(s)) => JsonScalar::Str(s.clone()),
        Some(serde_json::Value::Number(n)) => match n.as_u64() {
            Some(u) => JsonScalar::UInt(u),
            None => JsonScalar::Other,
        },
        Some(serde_json::Value::Array(items)) => JsonScalar::Items(items.len()),
        Some(_) => JsonScalar::Other,
    }
}

/// The pointer of the field `key` of the entry at `i` of `formats`.
pub open spec fn format_field_pointer(i: nat, key: Seq<char>) -> Seq<char> {
    "/formats/"@ + decimal_of(i) + "/"@ + key
}

/// The number of entries of `formats`: none when it is not an array.
pub open spec fn format_count(doc: Map<Seq<char>, JsonNode>) -> nat {
    match node_at(doc, "/formats"@) {
        JsonNode::Items(n) => n,
        _ => 0,
    }
}

/// The fields of the entry at `i` of `formats`.
pub open spec fn format_json_at(doc: Map<Seq<char>, JsonNode>, i: nat) -> FormatJsonView {
    FormatJsonView {
        format_id: node_at(doc, format_field_pointer(i, "format_id"@)),
        format_note: node_at(doc, format_field_pointer(i, "format_note"@)),
        ext: node_at(doc, format_field_pointer(i, "ext"@)),
        resolution: node_at(doc, format_field_pointer(i, "resolution"@)),
        fps: node_at(doc, format_field_pointer(i, "fps"@)),
        vcodec: node_at(doc, format_field_pointer(i, "vcodec"@)),
        acodec: node_at(doc, format_field_pointer(i, "acodec"@)),
        filesize: node_at(doc, format_field_pointer(i, "filesize"@)),
        filesize_approx: node_at(doc, format_field_pointer(i, "filesize_approx"@)),
    }
}

/// `thumbnails[0].url`: read only when `thumbnails` is an array (indexing
/// an object by a number gives nothing, unlike a pointer step `0`).
pub open spec fn first_thumbnail_url(doc: Map<Seq<char>, JsonNode>) -> JsonNode {
    if node_at(doc, "/thumbnails"@) is Items {
        node_at(doc, "/thumbnails/0/url"@)
    } else {
        JsonNode::Null
    }
}

/// The description of a video that a document gives.
pub open spec fn video_json_in(doc: Map<Seq<char>, JsonNode>) -> VideoJsonView {
    VideoJsonView {
        id: node_at(doc, "/id"@),
        title: node_at(doc, "/title"@),
        thumbnail: node_at(doc, "/thumbnail"@),
        thumbnails_first_url: first_thumbnail_url(doc),
        duration: node_at(doc, "/duration"@),
        uploader: node_at(doc, "/uploader"@),
        channel: node_at(doc, "/channel"@),
        view_count: node_at(doc, "/view_count"@),
        upload_date: node_at(doc, "/upload_date"@),
        description: node_at(doc, "/description"@),
        formats: Seq::new(format_count(doc), |i: int| format_json_at(doc, i as nat)),
    }
}

/// The description of a video that `bytes` hold, or `None` when they are
/// not JSON.
pub open spec fn video_json_of(bytes: Seq<u8>) -> Option<VideoJsonView> {
    match json_document_of(bytes) {
        Some(doc) => Some(video_json_in(doc)),
        None => None,
    }
}

/// The field `key` of the entry at `i` of `formats`.
fn format_field(doc: &serde_json::Value, i: usize, key: &str) -> (r: JsonScalar)
    ensures
        r@ == node_at(json_content(*doc), format_field_pointer(i as nat, key@)),
{
    let mut pointer = "/formats/".to_owned();
    pointer.append(decimal_text(i).as_str());
    pointer.append("/");
    pointer.append(key);
    json_at(doc, pointer.as_str())
}

/// The fields of the entry at `i` of `formats`.
fn format_json(doc: &serde_json::Value, i: usize) -> (r: FormatJson)
    ensures
        r@ == format_json_at(json_content(*doc), i as nat),
{
    FormatJson {
        format_id: format_field(doc, i, "format_id"),
        format_note: format_field(doc, i, "format_note"),
        ext: format_field(doc, i, "ext"),
        resolution: format_field(doc, i, "resolution"),
        fps: format_field(doc, i, "fps"),
        vcodec: format_field(doc, i, "vcodec"),
        acodec: format_field(doc, i, "acodec"),
        filesize: format_field(doc, i, "filesize"),
        filesize_approx: format_field(doc, i, "filesize_approx"),
    }
}

/// The description of a video that a parsed document gives.
fn video_json(doc: &serde_json::Value) -> (r: VideoJson)
    ensures
        r@ == video_json_in(json_content(*doc)),
{
    let ghost content = json_content(*doc);
    let count: usize = match json_at(doc, "/formats") {
        JsonScalar::Items(n) => n,
        _ => 0,
    };
    let mut formats: Vec<FormatJson> = Vec::new();
    let mut i: usize = 0;
    while i < count
        invariant
            i <= count,
            count == format_count(content),
            content == json_content(*doc),
            formats@.len() == i,
            forall|j: int| 0 <= j < i ==> (#[trigger] formats@[j])@ == format_json_at(content, j as nat),
        decreases count - i,
    {
        formats.push(format_json(doc, i));
        i += 1;
    }
    let thumbnails_first_url = match json_at(doc, "/thumbnails") {
        JsonScalar::Items(_) => json_at(doc, "/thumbnails/0/url"),
        _ => JsonScalar::Null,
    };
    let r = VideoJson {
        id: json_at(doc, "/id"),
        title: json_at(doc, "/title"),
        thumbnail: json_at(doc, "/thumbnail"),
        thumbnails_first_url,
        duration: json_at(doc, "/duration"),
        uploader: json_at(doc, "/uploader"),
        channel: json_at(doc, "/channel"),
        view_count: json_at(doc, "/view_count"),
        upload_date: json_at(doc, "/upload_date"),
        description: json_at(doc, "/description"),
        formats,
    };
    assert(r@.formats =~= video_json_in(content).formats);
    r
}

/// The description of a video that the download tool printed, or `None`
/// when the output is not JSON.
pub fn parse_video_json(stdout: &[u8]) -> (r: Option<VideoJson>)
    ensures
        match r {
            Some(j) => video_json_of(stdout@) == Some(j@),
            None => video_json_of(stdout@) is None,
        },
{
    match json_from_slice(stdout) {
        Some(doc) => Some(video_json(&doc)),
        None => None,
    }
}

} // verus!
