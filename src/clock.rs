//! Timestamp text, from chrono. Reading the clock is left to the caller.

use vstd::prelude::*;

verus! {

/// The RFC 3339 text of the UTC time `secs` seconds and `nanos`
/// nanoseconds after the Unix epoch.
pub uninterp spec fn rfc3339_of(secs: i64, nanos: u32) -> Seq<char>;

/// Times well inside chrono's range of years (about 262 000 years either
/// side of year 0), with a nanosecond part below one second.
pub open spec fn representable(secs: i64, nanos: u32) -> bool {
    -8_000_000_000_000 <= secs <= 8_000_000_000_000 && nanos < 1_000_000_000
}

/// Relies on chrono's DateTime::<Utc>::from_timestamp, which gives `None`
/// only for a time out of its range or an invalid nanosecond part, and
/// DateTime::to_rfc3339, which formats the time it gives and cannot fail.
#[verifier::external_body]
fn rfc3339_at(secs: i64, nanos: u32) -> (r: Option<String>)
    ensures
        match r {
            Some(t) => t@ == rfc3339_of(secs, nanos),
            None => !representable(secs, nanos),
        },
{
    chrono::DateTime::<chrono::Utc>::from_timestamp(secs, nanos).map(|d| d.to_rfc3339())
}

/// The RFC 3339 text of the UTC time `secs` seconds and `nanos` nanoseconds
/// after the Unix epoch; empty where chrono cannot represent it.
pub fn timestamp_text(secs: i64, nanos: u32) -> (r: String)
    ensures
        r@ == rfc3339_of(secs, nanos) || (r@.len() == 0 && !representable(secs, nanos)),
        representable(secs, nanos) ==> r@ == rfc3339_of(secs, nanos),
{
    match rfc3339_at(secs, nanos) {
        Some(t) => t,
        None => String::new(),
    }
}

} // verus!
