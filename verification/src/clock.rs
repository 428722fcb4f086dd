//! Timestamps.
//!
//! An entry's timestamp is a `chrono::NaiveDateTime` that holds UTC. The
//! library carries it through and never looks inside. Turning it into the
//! text of a rendered line takes two steps: the offset of the machine's local
//! time from UTC at that instant is looked up, which depends on the machine,
//! and the instant is formatted at that offset, which does not.

use vstd::prelude::*;
use chrono::{DateTime, FixedOffset, Local, NaiveDateTime, TimeZone, Utc};

verus! {

/// `chrono::NaiveDateTime`: a calendar date with a time of day, without a
/// time zone. Opaque to the verifier.
#[verifier::external_type_specification]
#[verifier::external_body]
pub struct ExNaiveDateTime(NaiveDateTime);

/// The pattern in which timestamps are rendered: date, time of day, and the
/// nanoseconds of the second.
pub open spec fn stamp_pattern() -> Seq<char> {
    "%Y-%m-%d %H:%M:%S.%f"@
}

/// Whether `offset` is a number of seconds that local time can be ahead of
/// UTC: less than a day either way.
pub open spec fn is_offset(offset: int) -> bool {
    -86_400 < offset < 86_400
}

/// The text of the UTC instant `at`, seen `offset` seconds ahead of UTC, in
/// the pattern of rendered timestamps: what `chrono` formats for it.
pub uninterp spec fn stamp_text(at: NaiveDateTime, offset: int) -> Seq<char>;

/// The current time in UTC: `std::time::SystemTime::now`, turned into a
/// `chrono` instant by `DateTime::<Utc>::from` and into its naive date-time
/// by `DateTime::naive_utc`. The value depends on the clock, so nothing is
/// claimed of it.
#[verifier::external_body]
pub(crate) fn utc_now() -> NaiveDateTime {
    DateTime::<Utc>::from(std::time::SystemTime::now()).naive_utc()
}

/// The seconds by which the machine's local time is ahead of UTC at the UTC
/// instant `at`: `Local.offset_from_utc_datetime`, read by
/// `FixedOffset::local_minus_utc`. Which offset it is depends on the time
/// zone that the machine is set to; a `FixedOffset` always holds less than a
/// day either way, and that is all that is claimed.
#[verifier::external_body]
pub(crate) fn local_offset(at: &NaiveDateTime) -> (r: i32)
    ensures
        is_offset(r as int),
{
    Local.offset_from_utc_datetime(at).local_minus_utc()
}

/// The text of the UTC instant `at`, seen `offset` seconds ahead of UTC, in
/// the given pattern: `DateTime::with_timezone` to the `FixedOffset` of
/// `offset`, then `DateTime::format`. The text is a function of the instant
/// and the offset alone. Only offsets that `FixedOffset::east_opt` takes and
/// only the library's own pattern are admitted, so neither step can fail.
#[verifier::external_body]
pub(crate) fn text_at_offset(at: &NaiveDateTime, offset: i32, pattern: &str) -> (r: String)
    requires
        is_offset(offset as int),
        pattern@ == stamp_pattern(),
    ensures
        r@ == stamp_text(*at, offset as int),
{
    let zone = FixedOffset::east_opt(offset).unwrap();
    at.and_utc().with_timezone(&zone).format(pattern).to_string()
}

} // verus!
