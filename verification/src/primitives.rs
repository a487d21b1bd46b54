//! The outside primitives the service leans on: checksum, password hashing,
//! random identifiers, wall-clock time and text decoding. Each function here
//! hands one call to its crate; what is claimed of the call is stated in its
//! contract and is taken on trust.

use vstd::prelude::*;
use vstd::string::StringSliceAdditionalSpecFns;
use vstd::utf8::valid_utf8;
use crate::session::Timestamp;

verus! {

/// The CRC-32 (IEEE) checksum of a byte string, as `crc32fast::hash` computes
/// it.
pub uninterp spec fn crc32_of(data: Seq<u8>) -> u32;

/// Calls `crc32fast::hash`. The checksum depends on the bytes alone, so the
/// result is the named checksum of `data`.
#[verifier::external_body]
pub(crate) fn crc32(data: &[u8]) -> (sum: u32)
    ensures
        sum == crc32_of(data@),
{
    crc32fast::hash(data)
}

/// Calls `std::str::from_utf8`. It succeeds exactly on well-formed UTF-8 and
/// the text it returns is spelled by the very bytes given.
#[verifier::external_body]
pub(crate) fn utf8_text(bytes: &[u8]) -> (text: Option<&str>)
    ensures
        text is Some <==> valid_utf8(bytes@),
        text matches Some(s) ==> s.spec_bytes() == bytes@,
{
    std::str::from_utf8(bytes).ok()
}

/// The error type of the `argon2` crate. Its variants are not looked into.
#[verifier::external_type_specification]
#[verifier::external_body]
pub struct ExArgon2Error(argon2::Error);

/// The encoded Argon2 hash that `argon2::hash_encoded` gives a password under
/// a salt and the crate's default configuration.
pub uninterp spec fn argon2_encoded(password: Seq<u8>, salt: Seq<u8>) -> Seq<char>;

/// What `argon2::verify_encoded` makes of an encoded hash and a password:
/// `Some(true)` where the password matches, `Some(false)` where it does not,
/// `None` where the hash cannot be read.
pub uninterp spec fn argon2_verdict(encoded: Seq<char>, password: Seq<u8>) -> Option<bool>;

/// The instant that `chrono::DateTime::parse_from_rfc3339` reads from a text,
/// as whole seconds since the Unix epoch and the nanoseconds past them;
/// `None` where the text is no RFC 3339 date and time.
pub uninterp spec fn rfc3339_instant(text: Seq<char>) -> Option<(i64, u32)>;

/// Calls `argon2::hash_encoded` with `argon2::Config::default()`. Under that
/// configuration the crate refuses an input only for its length: a password
/// longer than `u32::MAX` bytes, or a salt shorter than 8 or longer than
/// `u32::MAX` bytes. The hash depends on password and salt alone.
#[verifier::external_body]
pub(crate) fn argon2_hash(password: &[u8], salt: &[u8]) -> (outcome: Result<String, argon2::Error>)
    ensures
        outcome is Ok <==> (password@.len() <= u32::MAX && 8 <= salt@.len() && salt@.len() <= u32::MAX),
        outcome matches Ok(encoded) ==> encoded@ == argon2_encoded(password@, salt@),
{
    argon2::hash_encoded(password, salt, &argon2::Config::default())
}

/// Calls `argon2::verify_encoded`. The verdict depends on the encoded hash
/// and the password alone. The crate is built without its thread support, so
/// the call runs in the calling thread whatever number of lanes the hash
/// names; its cost in time and memory is whatever the encoded hash asks for.
#[verifier::external_body]
pub(crate) fn argon2_verify(encoded: &str, password: &[u8]) -> (verdict: Result<
    bool,
    argon2::Error,
>)
    ensures
        verdict matches Ok(matches) ==> argon2_verdict(encoded@, password@) == Some(matches),
        verdict is Err ==> argon2_verdict(encoded@, password@) is None,
{
    argon2::verify_encoded(encoded, password)
}

/// Calls `uuid::Uuid::new_v4` and hands the identifier out as the 128-bit
/// number it is. The value comes from the system's random source; nothing is
/// claimed of it. The call panics on a system whose random source fails.
#[verifier::external_body]
pub(crate) fn random_u128() -> u128 {
    uuid::Uuid::new_v4().as_u128()
}

/// Calls `chrono::Utc::now`. The value is the clock's; nothing is claimed of
/// it. The call panics on a system whose clock stands before 1970.
#[verifier::external_body]
pub(crate) fn utc_now() -> Timestamp {
    let now = chrono::Utc::now();
    Timestamp { seconds: now.timestamp(), nanos: now.timestamp_subsec_nanos() }
}

/// Whether a character is a decimal digit.
pub open spec fn is_digit(c: char) -> bool {
    '0' <= c <= '9'
}

/// Whether a character is a plus or a minus sign.
pub open spec fn is_sign(c: char) -> bool {
    c == '+' || c == '-'
}

/// Whether the characters of `text` from `from` up to `to` are all digits.
pub open spec fn all_digits(text: Seq<char>, from: int, to: int) -> bool {
    forall|i: int| from <= i < to ==> is_digit(#[trigger] text[i])
}

/// Whether `text` has the shape of a written timestamp whose year takes
/// `year` characters and whose seconds have `fraction` decimals: the year;
/// `-MM-DDTHH:MM:SS` in digits; a point and the decimals, if there are any;
/// and the offset from UTC as a sign and `HH:MM` in digits. A year of four
/// characters is four digits; a longer one is a sign and at least four
/// digits.
pub open spec fn timestamp_shaped_with(text: Seq<char>, year: int, fraction: int) -> bool {
    let time = year + 15;
    let offset = if fraction == 0 {
        time
    } else {
        time + 1 + fraction
    };
    &&& 4 <= year <= 11
    &&& fraction == 0 || fraction == 3 || fraction == 6 || fraction == 9
    &&& text.len() == offset + 6
    &&& if year == 4 {
        all_digits(text, 0, 4)
    } else {
        is_sign(text[0]) && all_digits(text, 1, year)
    }
    &&& text[year] == '-'
    &&& all_digits(text, year + 1, year + 3)
    &&& text[year + 3] == '-'
    &&& all_digits(text, year + 4, year + 6)
    &&& text[year + 6] == 'T'
    &&& all_digits(text, year + 7, year + 9)
    &&& text[year + 9] == ':'
    &&& all_digits(text, year + 10, year + 12)
    &&& text[year + 12] == ':'
    &&& all_digits(text, year + 13, year + 15)
    &&& fraction > 0 ==> text[time] == '.' && all_digits(text, time + 1, time + 1 + fraction)
    &&& is_sign(text[offset])
    &&& all_digits(text, offset + 1, offset + 3)
    &&& text[offset + 3] == ':'
    &&& all_digits(text, offset + 4, offset + 6)
}

/// Whether `text` has the shape in which `chrono` writes a date and time
/// with its offset from UTC, such as `1996-12-19T16:39:57-08:00` or
/// `2024-02-29T12:00:00.500+01:00`.
pub open spec fn timestamp_shaped(text: Seq<char>) -> bool {
    exists|year: int, fraction: int| timestamp_shaped_with(text, year, fraction)
}

/// Calls `chrono::Local::now` and formats the instant with
/// `chrono::DateTime::to_rfc3339`. Which instant and which offset the text
/// names depends on the clock and the machine's time zone and is not
/// claimed. Its shape is: the crate writes the year as four digits, or with
/// a sign and four to ten digits where it lies outside 0 to 9999; then
/// month, day, hour, minute and second as two digits each between their
/// separators; then no decimals or a point and three, six or nine of them;
/// then the offset as a sign, two digits, a colon and two digits. The call
/// panics on a system whose clock stands before 1970.
#[verifier::external_body]
pub(crate) fn local_now_rfc3339() -> (text: String)
    ensures
        timestamp_shaped(text@),
{
    chrono::Local::now().to_rfc3339()
}

/// Calls `chrono::DateTime::parse_from_rfc3339` and converts the instant to
/// UTC. The result depends on the text alone.
#[verifier::external_body]
pub(crate) fn parse_rfc3339(text: &str) -> (instant: Option<Timestamp>)
    ensures
        instant matches Some(t) ==> rfc3339_instant(text@) == Some((t.seconds, t.nanos)),
        instant is None ==> rfc3339_instant(text@) is None,
{
    match chrono::DateTime::parse_from_rfc3339(text) {
        Ok(parsed) => {
            let utc = parsed.with_timezone(&chrono::Utc);
            Some(Timestamp { seconds: utc.timestamp(), nanos: utc.timestamp_subsec_nanos() })
        },
        Err(_) => None,
    }
}

} // verus!
