//! Recognition of the URLs the downloader accepts.

use vstd::prelude::*;

verus! {

/// Whether `regex::Regex::new` accepts `pattern` (it is valid and within the
/// default size limit).
pub uninterp spec fn regex_compiles(pattern: Seq<char>) -> bool;

/// Whether the regex compiled from `pattern` matches somewhere in `haystack`.
pub uninterp spec fn regex_finds(pattern: Seq<char>, haystack: Seq<char>) -> bool;

/// `regex::Regex::new(pattern)`, then `Regex::is_match(haystack)` on the
/// compiled regex.  The claim: `None` exactly when the pattern does not
/// compile, otherwise whether the regex matches anywhere in `haystack`;
/// both depend on the two texts alone.
#[verifier::external_body]
fn regex_search(pattern: &str, haystack: &str) -> (r: Option<bool>)
    ensures
        r == if regex_compiles(pattern@) {
            Some(regex_finds(pattern@, haystack@))
        } else {
            None
        },
{
    match regex::Regex::new(pattern) {
        Ok(re) => Some(re.is_match(haystack)),
        Err(_) => None,
    }
}

/// The URL shapes that are accepted: watch pages, short links, shorts,
/// playlists and mobile watch pages.
pub open spec fn youtube_patterns() -> Seq<Seq<char>> {
    seq![
        "(?:https?://)?(?:www\\.)?youtube\\.com/watch\\?v=[\\w-]+"@,
        "(?:https?://)?(?:www\\.)?youtu\\.be/[\\w-]+"@,
        "(?:https?://)?(?:www\\.)?youtube\\.com/shorts/[\\w-]+"@,
        "(?:https?://)?(?:www\\.)?youtube\\.com/playlist\\?list=[\\w-]+"@,
        "(?:https?://)?(?:m\\.)?youtube\\.com/watch\\?v=[\\w-]+"@,
    ]
}

/// Some search came back as a match (a pattern that does not compile
/// counts as no match).
pub open spec fn some_match(outcomes: Seq<Option<bool>>) -> bool {
    exists|i: int| 0 <= i < outcomes.len() && outcomes[i] == Some(true)
}

/// The outcome of searching `url` with each pattern.
pub open spec fn search_outcomes(url: Seq<char>) -> Seq<Option<bool>> {
    youtube_patterns().map_values(
        |p: Seq<char>|
            if regex_compiles(p) {
                Some(regex_finds(p, url))
            } else {
                None
            },
    )
}

/// Whether some search outcome is a match.
pub fn any_match(outcomes: &Vec<Option<bool>>) -> (r: bool)
    ensures
        r == some_match(outcomes@),
{
    let mut i: usize = 0;
    while i < outcomes.len()
        invariant
            i <= outcomes@.len(),
            forall|j: int| 0 <= j < i ==> outcomes@[j] != Some(true),
        decreases outcomes@.len() - i,
    {
        match outcomes[i] {
            Some(true) => {
                return true;
            },
            _ => {},
        }
        i += 1;
    }
    false
}

/// Whether `url` matches one of the accepted URL patterns anywhere in it.
pub fn is_valid_youtube_url(url: &str) -> (r: bool)
    ensures
        r == some_match(search_outcomes(url@)),
{
    let mut outcomes: Vec<Option<bool>> = Vec::new();
    outcomes.push(regex_search("(?:https?://)?(?:www\\.)?youtube\\.com/watch\\?v=[\\w-]+", url));
    outcomes.push(regex_search("(?:https?://)?(?:www\\.)?youtu\\.be/[\\w-]+", url));
    outcomes.push(regex_search("(?:https?://)?(?:www\\.)?youtube\\.com/shorts/[\\w-]+", url));
    outcomes.push(
        regex_search("(?:https?://)?(?:www\\.)?youtube\\.com/playlist\\?list=[\\w-]+", url),
    );
    outcomes.push(regex_search("(?:https?://)?(?:m\\.)?youtube\\.com/watch\\?v=[\\w-]+", url));
    assert(outcomes@ =~= search_outcomes(url@));
    any_match(&outcomes)
}

} // verus!

verus! {

/// The check made before a video is resolved: `Invalid YouTube URL` unless
/// the URL has an accepted shape.
pub fn check_video_url(url: &str) -> (r: Result<(), String>)
    ensures
        r is Ok <==> some_match(search_outcomes(url@)),
        r matches Err(e) ==> e@ == "Invalid YouTube URL"@,
{
    if !is_valid_youtube_url(url) {
        return Err("Invalid YouTube URL".to_owned());
    }
    Ok(())
}

} // verus!
