//! Calls into outside crates, each behind a contract that the calling
//! verified code relies on.

use vstd::prelude::*;
use base64::Engine;
use sha2::Digest;
use smtp_proto::response::generate::BitToString;
use crate::text::decimal;
use vstd::utf8::{decode_utf8, valid_utf8};
use unicode_normalization::UnicodeNormalization;
use unicode_security::MixedScript;

verus! {

/// The RFC 5322 date text (`Tue, 1 Jul 2003 10:52:37 +0000`) of a UNIX timestamp.
pub uninterp spec fn rfc822_date(timestamp: u64) -> Seq<char>;

/// Formats a UNIX timestamp as an RFC 5322 date with
/// `mail_parser::DateTime::from_timestamp` followed by `DateTime::to_rfc822`.
/// The contract claims only that the text is a function of the timestamp,
/// named `rfc822_date`; the calendar arithmetic is not restated.
#[verifier::external_body]
pub(crate) fn format_rfc822(timestamp: u64) -> (r: String)
    ensures
        r@ == rfc822_date(timestamp),
{
    mail_parser::DateTime::from_timestamp(timestamp as i64).to_rfc822()
}

/// The 64-bit XXH3 hash of a byte string.
pub uninterp spec fn xxh3_hash(data: Seq<u8>) -> u64;

/// Hashes bytes with `xxhash_rust::xxh3::xxh3_64`. The contract claims only
/// that the hash is a function of the bytes, named `xxh3_hash`.
#[verifier::external_body]
pub(crate) fn xxh3_64(data: &[u8]) -> (r: u64)
    ensures
        r == xxh3_hash(data@),
{
    xxhash_rust::xxh3::xxh3_64(data)
}

/// The lowercase form of a text, as `str::to_lowercase` maps it.
pub uninterp spec fn lowercase(s: Seq<char>) -> Seq<char>;

/// Lowercases a text with `str::to_lowercase`. The contract claims only that
/// the result is a function of the text, named `lowercase`.
#[verifier::external_body]
pub(crate) fn to_lowercase(s: &str) -> (r: String)
    ensures
        r@ == lowercase(s@),
{
    s.to_lowercase()
}

/// A text without its leading and trailing white space, as `str::trim`
/// removes it.
pub uninterp spec fn trimmed(s: Seq<char>) -> Seq<char>;

/// Trims white space off both ends of a text with `str::trim`. The contract
/// claims only that the result is a function of the text, named `trimmed`.
#[verifier::external_body]
pub(crate) fn trim(s: &str) -> (r: &str)
    ensures
        r@ == trimmed(s@),
{
    s.trim()
}

/// The standard Base64 encoding (RFC 4648, with padding) of a byte string.
pub uninterp spec fn base64_encoded(data: Seq<u8>) -> Seq<char>;

/// The bytes that a standard Base64 text decodes to, or `None` when the
/// text is not valid Base64.
pub uninterp spec fn base64_decoded(text: Seq<u8>) -> Option<Seq<u8>>;

/// Encodes bytes with `base64::engine::general_purpose::STANDARD.encode`.
/// The contract claims only that the text is a function of the bytes, named
/// `base64_encoded`.
#[verifier::external_body]
pub(crate) fn base64_encode(data: &[u8]) -> (r: String)
    ensures
        r@ == base64_encoded(data@),
{
    base64::engine::general_purpose::STANDARD.encode(data)
}

/// Decodes text with `base64::engine::general_purpose::STANDARD.decode`,
/// which fails on text that is not valid Base64. The contract claims only
/// that the outcome is a function of the text, named `base64_decoded`.
#[verifier::external_body]
pub(crate) fn base64_decode(text: &[u8]) -> (r: Option<Vec<u8>>)
    ensures
        r is Some == base64_decoded(text@) is Some,
        r is Some ==> r->Some_0@ == base64_decoded(text@)->Some_0,
{
    base64::engine::general_purpose::STANDARD.decode(text).ok()
}

/// The name of an SMTP authentication mechanism bit.
pub uninterp spec fn mechanism_name(mechanism: u64) -> Seq<char>;

/// Names an authentication mechanism bit with `smtp_proto`'s
/// `BitToString::to_mechanism`. The contract claims only that the name is
/// a function of the bit, named `mechanism_name`.
#[verifier::external_body]
pub(crate) fn to_mechanism(mechanism: u64) -> (r: &'static str)
    ensures
        r@ == mechanism_name(mechanism),
{
    mechanism.to_mechanism()
}

/// The lower case form of a character, as `char::to_lowercase` yields it
/// (one or more characters).
pub uninterp spec fn char_lower(c: char) -> Seq<char>;

/// Lowercases a character with `char::to_lowercase`. The contract claims
/// only that the result is a function of the character, named `char_lower`.
#[verifier::external_body]
pub(crate) fn lowercase_char(c: char) -> (r: String)
    ensures
        r@ == char_lower(c),
{
    c.to_lowercase().collect()
}

/// Whether a character is alphabetic, as `char::is_alphabetic` decides
/// (the Unicode `Alphabetic` property).
pub uninterp spec fn alphabetic(c: char) -> bool;

/// Tests a character with `char::is_alphabetic`. The contract claims only
/// that the answer is a function of the character, named `alphabetic`.
#[verifier::external_body]
pub(crate) fn is_alphabetic(c: char) -> (r: bool)
    ensures
        r == alphabetic(c),
{
    c.is_alphabetic()
}

/// The text that `decancer::cure` with its default options makes of a
/// text (confusable characters replaced, in lower case), or `None` where it
/// fails.
pub uninterp spec fn cured_text(s: Seq<char>) -> Option<Seq<char>>;

/// Cures a text with `decancer::cure(s, decancer::Options::default())`. The
/// contract claims only that the outcome is a function of the text, named
/// `cured_text`.
#[verifier::external_body]
pub(crate) fn cure_text(s: &str) -> (r: Option<String>)
    ensures
        r is Some == cured_text(s@) is Some,
        r is Some ==> r->Some_0@ == cured_text(s@)->Some_0,
{
    match decancer::cure(s, decancer::Options::default()) {
        Ok(cured) => Some(cured.as_str().to_string()),
        Err(_) => None,
    }
}


/// The SHA-256 digest of a byte string.
pub uninterp spec fn sha256_digest(data: Seq<u8>) -> Seq<u8>;

/// Hashes bytes with `sha2::Sha256::digest`. The contract claims that the
/// digest is a function of the bytes, named `sha256_digest`, and is 32
/// bytes long, as the algorithm fixes.
#[verifier::external_body]
pub(crate) fn sha256(data: &[u8]) -> (r: Vec<u8>)
    ensures
        r@ == sha256_digest(data@),
        r@.len() == 32,
{
    sha2::Sha256::digest(data).to_vec()
}

/// The SHA-512 digest of a byte string.
pub uninterp spec fn sha512_digest(data: Seq<u8>) -> Seq<u8>;

/// Hashes bytes with `sha2::Sha512::digest`. The contract claims that the
/// digest is a function of the bytes, named `sha512_digest`, and is 64
/// bytes long, as the algorithm fixes.
#[verifier::external_body]
pub(crate) fn sha512(data: &[u8]) -> (r: Vec<u8>)
    ensures
        r@ == sha512_digest(data@),
        r@.len() == 64,
{
    sha2::Sha512::digest(data).to_vec()
}


/// A UTC calendar time: date and time of day.
#[derive(Clone, Copy, Debug, PartialEq, Eq, Structural)]
pub struct CivilTime {
    pub year: u16,
    pub month: u8,
    pub day: u8,
    pub hour: u8,
    pub minute: u8,
    pub second: u8,
}

/// The calendar time of a UNIX timestamp.
pub uninterp spec fn civil_of(timestamp: i64) -> CivilTime;

/// Splits a UNIX timestamp into its UTC calendar time with
/// `mail_parser::DateTime::from_timestamp`. The contract claims only that
/// the calendar time is a function of the timestamp, named `civil_of`.
#[verifier::external_body]
pub(crate) fn civil_from_timestamp(timestamp: i64) -> (r: CivilTime)
    ensures
        r == civil_of(timestamp),
{
    let d = mail_parser::DateTime::from_timestamp(timestamp);
    CivilTime { year: d.year, month: d.month, day: d.day, hour: d.hour, minute: d.minute, second: d.second }
}

/// The UNIX timestamp of a UTC calendar time.
pub uninterp spec fn timestamp_of(c: CivilTime) -> i64;

/// Turns a UTC calendar time into a UNIX timestamp with
/// `mail_parser::DateTime::to_timestamp`. The contract claims only that
/// the timestamp is a function of the calendar time, named `timestamp_of`.
#[verifier::external_body]
pub(crate) fn civil_to_timestamp(c: CivilTime) -> (r: i64)
    ensures
        r == timestamp_of(c),
{
    let d = mail_parser::DateTime {
        year: c.year,
        month: c.month,
        day: c.day,
        hour: c.hour,
        minute: c.minute,
        second: c.second,
        tz_before_gmt: false,
        tz_hour: 0,
        tz_minute: 0,
    };
    d.to_timestamp()
}

/// The day of the week of a UTC calendar time (zero for Sunday).
pub uninterp spec fn weekday_of(c: CivilTime) -> u8;

/// The day of the week of a UTC calendar time with
/// `mail_parser::DateTime::day_of_week`. The contract claims that the day
/// is a function of the calendar time, named `weekday_of`, and below seven,
/// as the function takes it modulo seven.
#[verifier::external_body]
pub(crate) fn civil_weekday(c: CivilTime) -> (r: u8)
    ensures
        r == weekday_of(c),
        r < 7,
{
    let d = mail_parser::DateTime {
        year: c.year,
        month: c.month,
        day: c.day,
        hour: c.hour,
        minute: c.minute,
        second: c.second,
        tz_before_gmt: false,
        tz_hour: 0,
        tz_minute: 0,
    };
    d.day_of_week()
}

/// The current UNIX time in seconds, read from the system clock with
/// `SystemTime::now`; nothing is promised of it (zero for a clock set
/// before 1970).
#[verifier::external_body]
pub(crate) fn unix_now() -> u64 {
    std::time::SystemTime::now().duration_since(std::time::UNIX_EPOCH).map_or(0, |d| d.as_secs())
}


/// The decimal representation of `n`, padded with leading zeros to at
/// least `width` digits.
pub open spec fn padded(n: nat, width: nat) -> Seq<char> {
    let d = decimal(n);
    if d.len() >= width {
        d
    } else {
        Seq::new((width - d.len()) as nat, |i: int| '0') + d
    }
}

/// A date and time with its offset from UTC, as a header gives it.
#[derive(Clone, Copy, Debug, PartialEq, Eq, Structural)]
pub struct DateParts {
    pub year: u16,
    pub month: u8,
    pub day: u8,
    pub hour: u8,
    pub minute: u8,
    pub second: u8,
    pub tz_before_gmt: bool,
    pub tz_hour: u8,
    pub tz_minute: u8,
}

/// The RFC 3339 text of a date: `YYYY-MM-DDTHH:MM:SS` followed by the
/// offset `+HH:MM` (`-` west of UTC), or by `Z` when the offset is zero.
pub open spec fn rfc3339_text(d: DateParts) -> Seq<char> {
    let base = padded(d.year as nat, 4) + seq!['-'] + padded(d.month as nat, 2) + seq!['-']
        + padded(d.day as nat, 2) + seq!['T'] + padded(d.hour as nat, 2) + seq![':']
        + padded(d.minute as nat, 2) + seq![':'] + padded(d.second as nat, 2);
    if d.tz_hour != 0 || d.tz_minute != 0 {
        let sign = if d.tz_before_gmt { '-' } else { '+' };
        base + seq![sign] + padded(d.tz_hour as nat, 2) + seq![':'] + padded(d.tz_minute as nat, 2)
    } else {
        base + seq!['Z']
    }
}

/// Formats a date with `mail_parser::DateTime::to_rfc3339`, whose source
/// writes the fields zero padded (`{:04}`, `{:02}`) in the layout that
/// `rfc3339_text` states.
#[verifier::external_body]
pub(crate) fn format_rfc3339(d: DateParts) -> (r: String)
    ensures
        r@ == rfc3339_text(d),
{
    let dt = mail_parser::DateTime {
        year: d.year,
        month: d.month,
        day: d.day,
        hour: d.hour,
        minute: d.minute,
        second: d.second,
        tz_before_gmt: d.tz_before_gmt,
        tz_hour: d.tz_hour,
        tz_minute: d.tz_minute,
    };
    dt.to_rfc3339()
}

/// The text that `String::from_utf8_lossy` makes of bytes: invalid UTF-8
/// sequences become the replacement character.
pub uninterp spec fn lossy_text(bytes: Seq<u8>) -> Seq<char>;

/// Decodes bytes as UTF-8 with `String::from_utf8_lossy`. The contract
/// claims only that the text is a function of the bytes, named
/// `lossy_text`.
#[verifier::external_body]
pub(crate) fn from_utf8_lossy(bytes: &[u8]) -> (r: String)
    ensures
        r@ == lossy_text(bytes@),
{
    String::from_utf8_lossy(bytes).into_owned()
}


/// Whether a text is single-script (Unicode TS 39): some script covers all
/// of its characters.
pub uninterp spec fn single_script(s: Seq<char>) -> bool;

/// Tests a text with `unicode_security::MixedScript::is_single_script`.
/// The contract claims only that the answer is a function of the text,
/// named `single_script`.
#[verifier::external_body]
pub(crate) fn is_single_script(s: &str) -> (r: bool)
    ensures
        r == single_script(s@),
{
    s.is_single_script()
}

/// The NFC normalization of a character.
pub uninterp spec fn nfc_chars(c: char) -> Seq<char>;

/// Normalizes a character to NFC with `unicode_normalization`'s `nfc`.
/// The contract claims only that the result is a function of the
/// character, named `nfc_chars`.
#[verifier::external_body]
pub(crate) fn nfc_of(c: char) -> (r: String)
    ensures
        r@ == nfc_chars(c),
{
    std::iter::once(c).nfc().collect()
}

/// The NFKC normalization of a character.
pub uninterp spec fn nfkc_chars(c: char) -> Seq<char>;

/// Normalizes a character to NFKC with `unicode_normalization`'s `nfkc`.
/// The contract claims only that the result is a function of the
/// character, named `nfkc_chars`.
#[verifier::external_body]
pub(crate) fn nfkc_of(c: char) -> (r: String)
    ensures
        r@ == nfkc_chars(c),
{
    std::iter::once(c).nfkc().collect()
}

/// Whether a character is upper case, as `char::is_uppercase` decides
/// (the Unicode `Uppercase` property).
pub uninterp spec fn uppercase(c: char) -> bool;

/// Tests a character with `char::is_uppercase`. The contract claims only
/// that the answer is a function of the character, named `uppercase`.
#[verifier::external_body]
pub(crate) fn is_uppercase(c: char) -> (r: bool)
    ensures
        r == uppercase(c),
{
    c.is_uppercase()
}

/// The two-letter abbreviation (such as `Lu` or `Po`) of the Unicode
/// general category of a character.
pub uninterp spec fn category_abbr(c: char) -> Seq<char>;

/// The general category of a character with
/// `unicode_general_category::get_general_category`, as its abbreviation
/// (`GeneralCategory::abbreviation`). The contract claims only that the
/// abbreviation is a function of the character, named `category_abbr`.
#[verifier::external_body]
pub(crate) fn category_abbreviation(c: char) -> (r: &'static str)
    ensures
        r@ == category_abbr(c),
{
    unicode_general_category::get_general_category(c).abbreviation()
}

/// Decodes UTF-8 with `std::str::from_utf8`, which succeeds exactly on
/// valid UTF-8 and gives the characters it encodes.
#[verifier::external_body]
pub(crate) fn str_from_utf8(bytes: &[u8]) -> (r: Option<&str>)
    ensures
        r is Some <==> valid_utf8(bytes@),
        r matches Some(s) ==> s@ == decode_utf8(bytes@),
{
    std::str::from_utf8(bytes).ok()
}


} // verus!
