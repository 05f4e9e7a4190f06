//! Trusted boundary to the outside world: the system clock, the home
//! directory (dirs), percent-encoding (urlencoding), and one std String
//! method that vstd leaves unspecified.

use vstd::prelude::*;

verus! {

/// Relies on std's String::push: appends exactly one character.
pub assume_specification[ String::push ](s: &mut String, c: char)
    ensures
        final(s)@ == old(s)@.push(c),
;

/// Relies on std's SystemTime::now and duration_since: the current wall
/// clock as milliseconds since the Unix epoch. A clock set before the epoch
/// reads as zero, so the call never panics; nothing can be promised of the
/// value itself.
#[verifier::external_body]
pub fn now_millis() -> i64 {
    std::time::SystemTime::now()
        .duration_since(std::time::UNIX_EPOCH)
        .map(|d| d.as_millis() as i64)
        .unwrap_or(0)
}

/// Relies on std's SystemTime::now and duration_since: the current wall
/// clock as nanoseconds since the Unix epoch, where that fits an i64. A
/// clock set before the epoch reads as `None`, so the call never panics;
/// nothing can be promised of the value itself.
#[verifier::external_body]
pub fn now_nanos() -> Option<i64> {
    std::time::SystemTime::now()
        .duration_since(std::time::UNIX_EPOCH)
        .ok()
        .and_then(|d| i64::try_from(d.as_nanos()).ok())
}

/// Relies on dirs::home_dir: the user's home directory, if the platform
/// reports one. Nothing can be promised of the value itself.
#[verifier::external_body]
pub fn home_dir() -> Option<String> {
    dirs::home_dir().map(|p| p.to_string_lossy().into_owned())
}

/// What urlencoding::encode returns for a given input: the percent-encoded
/// form of the string. The result depends on the characters alone.
pub uninterp spec fn url_encoded(s: Seq<char>) -> Seq<char>;

/// Relies on urlencoding::encode: percent-encodes every byte of the UTF-8
/// form except ASCII alphanumerics and `-`, `_`, `.`, `~`.
#[verifier::external_body]
pub fn url_encode(s: &str) -> (r: String)
    ensures
        r@ == url_encoded(s@),
{
    urlencoding::encode(s).into_owned()
}

} // verus!
