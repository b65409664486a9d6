//! The outside sources of time and of identifiers.

use vstd::prelude::*;

verus! {

/// A point in time, as whole seconds since the Unix epoch and the
/// nanoseconds past that second.
#[derive(Clone, Copy)]
pub struct Timestamp {
    pub seconds: i64,
    pub nanoseconds: u32,
}

/// `DateTime::<Utc>::from(SystemTime::now())`: the current time, as seconds
/// and nanoseconds.  Nothing is promised of the value.  Unlike
/// `Utc::now`, this form counts a clock before 1970 backwards instead of
/// failing.
#[verifier::external_body]
pub(crate) fn now() -> (r: Timestamp) {
    let t = chrono::DateTime::<chrono::Utc>::from(std::time::SystemTime::now());
    Timestamp { seconds: t.timestamp(), nanoseconds: t.timestamp_subsec_nanos() }
}

} // verus!

verus! {

/// `getrandom::fill` on 16 bytes: random bytes from the system's source,
/// or `None` when that source fails.  Nothing is promised of the bytes.
#[verifier::external_body]
fn random_bytes() -> (r: Option<[u8; 16]>) {
    let mut bytes = [0u8; 16];
    match getrandom::fill(&mut bytes) {
        Ok(()) => Some(bytes),
        Err(_) => None,
    }
}

/// The shape of the text of a UUID in hyphenated lower-case form: 36
/// characters, hyphens at positions 8, 13, 18 and 23, lower-case hex digits
/// elsewhere.
pub open spec fn is_uuid_text(s: Seq<char>) -> bool {
    &&& s.len() == 36
    &&& forall|i: int|
        0 <= i < 36 ==> if i == 8 || i == 13 || i == 18 || i == 23 {
            #[trigger] s[i] == '-'
        } else {
            ('0' <= s[i] && s[i] <= '9') || ('a' <= s[i] && s[i] <= 'f')
        }
}

/// The text of a random (version 4, RFC 4122 variant) UUID: the version
/// digit is `4` and the variant digit one of `8`, `9`, `a`, `b`.
pub open spec fn is_v4_uuid_text(s: Seq<char>) -> bool {
    &&& is_uuid_text(s)
    &&& s[14] == '4'
    &&& (s[19] == '8' || s[19] == '9' || s[19] == 'a' || s[19] == 'b')
}

/// `uuid::Builder::from_random_bytes(bytes).into_uuid()`, as text through
/// its `Display` (`format_hyphenated` in the crate's `fmt` module).  The
/// builder sets the version to 4 and the variant to RFC 4122
/// (`builder.rs`), which fixes the digits at positions 14 and 19.
#[verifier::external_body]
fn v4_uuid_text(bytes: [u8; 16]) -> (r: String)
    ensures
        is_v4_uuid_text(r@),
{
    uuid::Builder::from_random_bytes(bytes).into_uuid().to_string()
}

/// A fresh random identifier for a download, in hyphenated UUID version 4
/// form, or `None` when the system's random source fails.
pub fn fresh_id() -> (r: Option<String>)
    ensures
        r matches Some(s) ==> is_v4_uuid_text(s@),
{
    match random_bytes() {
        Some(bytes) => Some(v4_uuid_text(bytes)),
        None => None,
    }
}

} // verus!
