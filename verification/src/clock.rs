//! Time. A point in time is a number of milliseconds since the Unix epoch;
//! this module reads the clock and writes points in time as text.

use crate::types::Timestamp;
use vstd::prelude::*;

verus! {

/// The text of a point in time in the notation of RFC 3339, in UTC and with
/// as many fractional digits as the point needs: for one that chrono can
/// represent, the text that `DateTime::to_rfc3339_opts` writes for it with
/// automatic precision, with `Z` for the zone where `zulu` is set and with
/// `+00:00` where it is not; `None` for any other.
pub uninterp spec fn rfc3339(at: Timestamp, zulu: bool) -> Option<Seq<char>>;

/// Calls `Utc::now` and `DateTime::timestamp_millis`. The clock is read, so
/// two calls differ. `Utc::now` gives no time before the epoch: it panics
/// where the system's clock is set before 1970.
#[verifier::external_body]
pub(crate) fn now_millis() -> (now: Timestamp)
    ensures
        now >= 0,
{
    chrono::Utc::now().timestamp_millis()
}

/// Calls `DateTime::from_timestamp_millis`, which gives nothing for a point
/// out of chrono's range, and `DateTime::to_rfc3339_opts` on what it gives.
/// The result is taken to be the text named [`rfc3339`], which is a function
/// of the point in time and of the choice of notation for the zone alone.
#[verifier::external_body]
pub(crate) fn timestamp_text(at: Timestamp, zulu: bool) -> (text: Option<String>)
    ensures
        match text {
            Some(t) => rfc3339(at, zulu) == Some(t@),
            None => rfc3339(at, zulu).is_none(),
        },
{
    match chrono::DateTime::from_timestamp_millis(at) {
        Some(time) => Some(time.to_rfc3339_opts(chrono::SecondsFormat::AutoSi, zulu)),
        None => None,
    }
}

} // verus!
