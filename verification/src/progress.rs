//! Parsing of the progress lines that the download tool prints.
//!
//! A progress line has the shape
//! `percent|speed|eta|downloaded_bytes|total_bytes`, each field possibly
//! padded with whitespace.  The percentage and the MiB/GiB speeds are
//! floating-point quantities: the library hands their text on unchanged
//! (see `ProgressLine::percent_text` and `SpeedReading`).

use vstd::prelude::*;
use crate::text::{
    chars_of, contains_chars, contains_text, parse_u64_chars, parse_u64_spec,
    remove_all, remove_all_chars, same_chars, split, split_chars, string_from_chars, strip_trailing,
    strip_trailing_chars, trim, trim_chars,
};

verus! {

/// A progress report for one download.
///
/// `progress_bits` is the IEEE-754 single-precision bit pattern of the
/// completion percentage; the library copies it and never computes with it.
pub struct DownloadProgress {
    pub id: String,
    pub downloaded_bytes: u64,
    pub total_bytes: u64,
    pub speed: u64,
    pub progress_bits: u32,
    pub eta_seconds: u64,
}

/// What a speed field says, before any floating-point arithmetic.
pub enum SpeedReading {
    /// A speed in bytes per second, fully computed.
    Exact(u64),
    /// The numeric text of a speed given in MiB/s.
    Mebibytes(String),
    /// The numeric text of a speed given in GiB/s.
    Gibibytes(String),
}

/// The mathematical content of a `SpeedReading`.
pub enum SpeedView {
    Exact(int),
    Mebibytes(Seq<char>),
    Gibibytes(Seq<char>),
}

impl View for SpeedReading {
    type V = SpeedView;

    open spec fn view(&self) -> SpeedView {
        match self {
            SpeedReading::Exact(n) => SpeedView::Exact(*n as int),
            SpeedReading::Mebibytes(t) => SpeedView::Mebibytes(t@),
            SpeedReading::Gibibytes(t) => SpeedView::Gibibytes(t@),
        }
    }
}

/// One parsed progress line.  `percent_text` is the percentage field,
/// trimmed and without its trailing `%` signs.
pub struct ProgressLine {
    pub id: String,
    pub percent_text: String,
    pub speed: SpeedReading,
    pub eta_seconds: u64,
    pub downloaded_bytes: u64,
    pub total_bytes: u64,
}

// ---------------------------------------------------------------------------
// Specifications
// ---------------------------------------------------------------------------

/// `parse().unwrap_or(0)` on a `u64` field, as a number.
pub open spec fn number_or_zero(s: Seq<char>) -> int {
    match parse_u64_spec(s) {
        Some(n) => n as int,
        None => 0,
    }
}

/// The number of seconds that an ETA field denotes: `N/A` or blank is 0,
/// `s`, `m:s` and `h:m:s` are summed with unparsable parts counted as 0,
/// and anything with more parts is 0.
pub open spec fn eta_value(s: Seq<char>) -> int {
    let t = trim(s);
    if t == "N/A"@ || t.len() == 0 {
        0
    } else {
        let parts = split(t, ':');
        if parts.len() == 1 {
            number_or_zero(parts[0])
        } else if parts.len() == 2 {
            number_or_zero(parts[0]) * 60 + number_or_zero(parts[1])
        } else if parts.len() == 3 {
            number_or_zero(parts[0]) * 3600 + number_or_zero(parts[1]) * 60 + number_or_zero(
                parts[2],
            )
        } else {
            0
        }
    }
}

/// The ETA field is computed without overflowing `u64`.
pub open spec fn eta_in_range(s: Seq<char>) -> bool {
    eta_value(s) <= u64::MAX
}

/// What a speed field says.
pub open spec fn speed_value(s: Seq<char>) -> SpeedView {
    let t = trim(s);
    if contains_text(t, "KiB"@) {
        SpeedView::Exact(number_or_zero(trim(remove_all(t, "KiB/s"@))) * 1024)
    } else if contains_text(t, "MiB"@) {
        SpeedView::Mebibytes(trim(remove_all(t, "MiB/s"@)))
    } else if contains_text(t, "GiB"@) {
        SpeedView::Gibibytes(trim(remove_all(t, "GiB/s"@)))
    } else {
        SpeedView::Exact(number_or_zero(t))
    }
}

/// The speed field is computed without overflowing `u64`.
pub open spec fn speed_in_range(s: Seq<char>) -> bool {
    speed_value(s) matches SpeedView::Exact(n) ==> n <= u64::MAX
}

/// A line with at least five `|`-separated fields is a progress line.
pub open spec fn is_progress_line(line: Seq<char>) -> bool {
    split(line, '|').len() >= 5
}

/// The numeric fields of a progress line fit in `u64`.
pub open spec fn progress_line_in_range(line: Seq<char>) -> bool {
    let parts = split(line, '|');
    parts.len() >= 5 ==> speed_in_range(trim(parts[1])) && eta_in_range(trim(parts[2]))
}

// ---------------------------------------------------------------------------
// Executable parsing
// ---------------------------------------------------------------------------

/// `parse().unwrap_or(0)` for a `u64`.
fn number_or_zero_exec(v: &Vec<char>) -> (r: u64)
    ensures
        r as int == number_or_zero(v@),
{
    match parse_u64_chars(v) {
        Some(n) => n,
        None => 0,
    }
}

/// The ETA in seconds, or `None` exactly when it does not fit in `u64`.
pub fn eta_checked(s: &Vec<char>) -> (r: Option<u64>)
    ensures
        r matches Some(n) ==> n as int == eta_value(s@),
        r is None <==> !eta_in_range(s@),
{
    let t = trim_chars(s);
    let na = chars_of("N/A");
    if same_chars(&t, &na) || t.len() == 0 {
        return Some(0);
    }
    let parts = split_chars(&t, ':');
    if parts.len() == 1 {
        Some(number_or_zero_exec(&parts[0]))
    } else if parts.len() == 2 {
        let m = number_or_zero_exec(&parts[0]);
        let sec = number_or_zero_exec(&parts[1]);
        match m.checked_mul(60) {
            Some(a) => a.checked_add(sec),
            None => None,
        }
    } else if parts.len() == 3 {
        let h = number_or_zero_exec(&parts[0]);
        let m = number_or_zero_exec(&parts[1]);
        let sec = number_or_zero_exec(&parts[2]);
        let a = match h.checked_mul(3600) {
            Some(a) => a,
            None => return None,
        };
        let b = match m.checked_mul(60) {
            Some(b) => b,
            None => return None,
        };
        match a.checked_add(b) {
            Some(ab) => ab.checked_add(sec),
            None => None,
        }
    } else {
        Some(0)
    }
}

/// Whether `parse_eta` can be applied to `s` (it overflows otherwise).
pub fn eta_fits(s: &str) -> (r: bool)
    ensures
        r == eta_in_range(s@),
{
    let v = chars_of(s);
    eta_checked(&v).is_some()
}

/// The ETA field in seconds.
pub fn parse_eta(s: &str) -> (r: u64)
    requires
        eta_in_range(s@),
    ensures
        r as int == eta_value(s@),
{
    let v = chars_of(s);
    match eta_checked(&v) {
        Some(n) => n,
        None => 0,
    }
}

/// The speed field, or `None` exactly when a KiB/s speed overflows `u64`.
pub fn speed_checked(s: &Vec<char>) -> (r: Option<SpeedReading>)
    ensures
        r matches Some(x) ==> x@ == speed_value(s@),
        r is None <==> !speed_in_range(s@),
{
    let t = trim_chars(s);
    let kib = chars_of("KiB");
    let mib = chars_of("MiB");
    let gib = chars_of("GiB");
    if contains_chars(&t, &kib) {
        let unit = chars_of("KiB/s");
        let num = trim_chars(&remove_all_chars(&t, &unit));
        match number_or_zero_exec(&num).checked_mul(1024) {
            Some(n) => Some(SpeedReading::Exact(n)),
            None => None,
        }
    } else if contains_chars(&t, &mib) {
        let unit = chars_of("MiB/s");
        let num = trim_chars(&remove_all_chars(&t, &unit));
        Some(SpeedReading::Mebibytes(string_from_chars(&num)))
    } else if contains_chars(&t, &gib) {
        let unit = chars_of("GiB/s");
        let num = trim_chars(&remove_all_chars(&t, &unit));
        Some(SpeedReading::Gibibytes(string_from_chars(&num)))
    } else {
        Some(SpeedReading::Exact(number_or_zero_exec(&t)))
    }
}

/// Whether `parse_speed` can be applied to `s` (it overflows otherwise).
pub fn speed_fits(s: &str) -> (r: bool)
    ensures
        r == speed_in_range(s@),
{
    let v = chars_of(s);
    speed_checked(&v).is_some()
}

/// The speed field: bytes per second for KiB/s and plain numbers, the
/// numeric text for MiB/s and GiB/s.
pub fn parse_speed(s: &str) -> (r: SpeedReading)
    requires
        speed_in_range(s@),
    ensures
        r@ == speed_value(s@),
{
    let v = chars_of(s);
    match speed_checked(&v) {
        Some(x) => x,
        None => SpeedReading::Exact(0),
    }
}

/// Whether `parse_progress_line` can be applied to `line`.
pub fn progress_line_fits(line: &str) -> (r: bool)
    ensures
        r == progress_line_in_range(line@),
{
    let v = chars_of(line);
    let parts = split_chars(&v, '|');
    if parts.len() < 5 {
        return true;
    }
    let speed = trim_chars(&parts[1]);
    let eta = trim_chars(&parts[2]);
    speed_checked(&speed).is_some() && eta_checked(&eta).is_some()
}

/// Parses one line of progress output.  Fields that do not parse keep the
/// value of `last` (the byte counts) or count as zero (speed and ETA).
pub fn parse_progress_line(line: &str, last: &DownloadProgress) -> (r: Option<ProgressLine>)
    requires
        progress_line_in_range(line@),
    ensures
        r is Some <==> is_progress_line(line@),
        r matches Some(p) ==> {
            let parts = split(line@, '|');
            &&& p.id == last.id
            &&& p.percent_text@ == strip_trailing(trim(parts[0]), '%')
            &&& p.speed@ == speed_value(trim(parts[1]))
            &&& p.eta_seconds as int == eta_value(trim(parts[2]))
            &&& p.downloaded_bytes == match parse_u64_spec(trim(parts[3])) {
                Some(n) => n,
                None => last.downloaded_bytes,
            }
            &&& p.total_bytes == match parse_u64_spec(trim(parts[4])) {
                Some(n) => n,
                None => last.total_bytes,
            }
        },
{
    let v = chars_of(line);
    let parts = split_chars(&v, '|');
    if parts.len() < 5 {
        return None;
    }
    let percent = strip_trailing_chars(&trim_chars(&parts[0]), '%');
    let speed = match speed_checked(&trim_chars(&parts[1])) {
        Some(x) => x,
        None => SpeedReading::Exact(0),
    };
    let eta = match eta_checked(&trim_chars(&parts[2])) {
        Some(n) => n,
        None => 0,
    };
    let downloaded = match parse_u64_chars(&trim_chars(&parts[3])) {
        Some(n) => n,
        None => last.downloaded_bytes,
    };
    let total = match parse_u64_chars(&trim_chars(&parts[4])) {
        Some(n) => n,
        None => last.total_bytes,
    };
    Some(
        ProgressLine {
            id: last.id.clone(),
            percent_text: string_from_chars(&percent),
            speed,
            eta_seconds: eta,
            downloaded_bytes: downloaded,
            total_bytes: total,
        },
    )
}

} // verus!
