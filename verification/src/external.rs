//! The calls this library makes into other crates. The contracts in this
//! file are taken on trust; everything else in the library is proved from
//! them.

use crate::text::decimal_digits;
use crate::types::values::Timestamp;
use vstd::prelude::*;

verus! {

/// What `byte_unit` prints for a size of `bytes` bytes in its alternate
/// format (`{:#}`): a number, a space and a unit, the unit being the one that
/// `Byte::get_recoverable_unit` picks for three decimal places.
pub uninterp spec fn human_readable_bytes(bytes: u64) -> Seq<char>;

/// What `humantime::format_duration` prints for a duration of `secs` whole
/// seconds.
pub uninterp spec fn humantime_formatted(secs: u64) -> Seq<char>;

/// The whole seconds of the duration that `humantime::parse_duration` reads
/// from `text`, or `None` where it rejects the text.
pub uninterp spec fn humantime_parsed_secs(text: Seq<char>) -> Option<u64>;

/// The duration that `std::time::Duration::from_secs` makes of `secs` whole
/// seconds.
pub uninterp spec fn duration_of_secs(secs: u64) -> std::time::Duration;

/// What `str::trim` leaves of `text`: the text without the whitespace at its
/// start and at its end.
pub uninterp spec fn trimmed(text: Seq<char>) -> Seq<char>;

/// What `str::parse::<u32>` makes of `text`: the number that the text
/// writes, or the message of the error with which the text is refused.
pub uninterp spec fn parsed_u32(text: Seq<char>) -> Result<u32, Seq<char>>;

/// `str::trim`. The result depends on the text alone.
#[verifier::external_body]
pub(crate) fn trim_text(text: &str) -> (r: &str)
    ensures
        r@ == trimmed(text@),
{
    text.trim()
}

/// `str::parse::<u32>`, an error being held by its message. The outcome
/// depends on the text alone.
#[verifier::external_body]
pub(crate) fn parse_u32_text(text: &str) -> (r: Result<u32, String>)
    ensures
        match r {
            Ok(n) => parsed_u32(text@) == Ok::<u32, Seq<char>>(n),
            Err(message) => parsed_u32(text@) == Err::<u32, Seq<char>>(message@),
        },
{
    match text.parse::<u32>() {
        Ok(n) => Ok(n),
        Err(e) => Err(e.to_string()),
    }
}

/// `byte_unit::Byte::from_u64` followed by the alternate `Display` format of
/// `Byte`. The text depends on the number of bytes alone.
#[verifier::external_body]
pub(crate) fn format_bytes(bytes: u64) -> (s: String)
    ensures
        s@ == human_readable_bytes(bytes),
{
    let byte = byte_unit::Byte::from_u64(bytes);
    format!("{byte:#}")
}

/// `humantime::format_duration` on a duration of `secs` seconds. The text
/// depends on the duration alone.
#[verifier::external_body]
pub(crate) fn format_seconds(secs: u64) -> (s: String)
    ensures
        s@ == humantime_formatted(secs),
{
    humantime::format_duration(std::time::Duration::from_secs(secs)).to_string()
}

/// The most decimal digits that a text may hold to be handed to
/// `humantime::parse_duration`.
pub const MAX_DURATION_DIGITS: usize = 11;

/// `humantime::parse_duration`, keeping the whole seconds of an accepted
/// duration. The outcome depends on the text alone.
///
/// The parser adds up its seconds with checked arithmetic but for one carry
/// from the nanoseconds, where it gives up once the seconds have reached
/// the top of 64 bits. The numbers of a text with at most
/// `MAX_DURATION_DIGITS` digits add up to less than 10^11, and the longest
/// unit, the year, has 31 557 600 seconds, so the seconds of such a text stay
/// below 4 * 10^18 and the carry is safe.
#[verifier::external_body]
pub(crate) fn parse_duration_secs(text: &str) -> (r: Option<u64>)
    requires
        decimal_digits(text@) <= MAX_DURATION_DIGITS,
    ensures
        r == humantime_parsed_secs(text@),
{
    match humantime::parse_duration(text) {
        Ok(duration) => Some(duration.as_secs()),
        Err(_) => None,
    }
}

/// `std::time::Duration::from_secs`: the duration of `secs` whole seconds and
/// no fraction of a second. The duration depends on the seconds alone.
#[verifier::external_body]
pub(crate) fn duration_from_secs(secs: u64) -> (d: std::time::Duration)
    ensures
        d == duration_of_secs(secs),
{
    std::time::Duration::from_secs(secs)
}

/// `chrono::Utc::now`, as seconds and nanoseconds since the Unix epoch. The
/// result is whatever the system clock says, so nothing is stated of it.
/// (`chrono` gives up on a clock that is set before 1970.)
#[verifier::external_body]
pub(crate) fn current_time() -> Timestamp {
    let now = chrono::Utc::now();
    Timestamp { secs: now.timestamp(), nanos: now.timestamp_subsec_nanos() }
}

} // verus!
