//! The few services the core takes from elsewhere: random identifiers, the
//! wall clock, calendar formatting, Unicode case mapping and lossy UTF-8
//! decoding. Each is a thin trusted call; everything built on top is verified.

use std::fmt::Write;

use vstd::prelude::*;
use vstd::utf8::{decode_utf8, valid_utf8};

verus! {

/// A fresh random identifier.
///
/// Calls `uuid::Uuid::new_v4` and renders it with its `Display` impl, which
/// writes the hyphenated lower-case form: 32 hex digits and four hyphens.
/// The value is random, so nothing else is promised about it.
#[verifier::external_body]
pub(crate) fn fresh_id() -> (id: String)
    ensures
        id@.len() == 36,
{
    uuid::Uuid::new_v4().to_string()
}

/// The current time as microseconds since the Unix epoch.
///
/// Calls `chrono::Utc::now` and `DateTime::timestamp_micros`. The clock is
/// outside the program, so nothing is promised about the value.
#[verifier::external_body]
pub(crate) fn now_micros() -> (t: i64) {
    chrono::Utc::now().timestamp_micros()
}

/// What chrono renders for a timestamp in microseconds under a
/// `strftime`-style pattern, or `None` when the instant is outside chrono's
/// calendar range or the pattern holds an unknown specifier.
pub uninterp spec fn utc_format(micros: i64, pattern: Seq<char>) -> Option<Seq<char>>;

/// Formats an instant given in microseconds since the Unix epoch.
///
/// Calls `chrono::DateTime::from_timestamp_micros` and writes the result of
/// `DateTime::format` into a string; a pattern chrono cannot render makes the
/// write fail, which is reported as `None` rather than a panic. The calendar
/// arithmetic is chrono's; the contract only names its result.
#[verifier::external_body]
pub(crate) fn format_utc(micros: i64, pattern: &str) -> (r: Option<String>)
    ensures
        r matches Some(s) ==> utc_format(micros, pattern@) == Some(s@),
        r is None ==> utc_format(micros, pattern@) is None,
{
    let instant = chrono::DateTime::from_timestamp_micros(micros)?;
    let mut out = String::new();
    match write!(out, "{}", instant.format(pattern)) {
        Ok(()) => Some(out),
        Err(_) => None,
    }
}

/// The Unicode lower-case mapping that `str::to_lowercase` applies.
pub uninterp spec fn lowercase(s: Seq<char>) -> Seq<char>;

/// `str::to_lowercase`: maps the text through the Unicode `Lowercase`
/// property, character by character except for a capital sigma, which
/// becomes a final sigma at the end of a word. The mapping is Unicode's; the
/// contract only names the result.
#[verifier::external_body]
pub(crate) fn to_lowercase(s: &str) -> (r: String)
    ensures
        r@ == lowercase(s@),
{
    s.to_lowercase()
}

/// What `String::from_utf8_lossy` decodes a byte run to.
pub uninterp spec fn lossy_decode(bytes: Seq<u8>) -> Seq<char>;

/// `String::from_utf8_lossy`: well-formed UTF-8 decodes to exactly its
/// characters, and malformed sequences become U+FFFD. Only the well-formed
/// case is stated beyond the name.
#[verifier::external_body]
pub(crate) fn decode_lossy(bytes: &[u8]) -> (s: String)
    ensures
        s@ == lossy_decode(bytes@),
        valid_utf8(bytes@) ==> s@ == decode_utf8(bytes@),
{
    String::from_utf8_lossy(bytes).into_owned()
}

} // verus!
