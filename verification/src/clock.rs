//! Calendar data as plain values. The only thing the outside world is asked
//! for is the local civil time of an instant; everything downstream of that
//! answer is verified against the ranges stated here.

use vstd::prelude::*;
use chrono::Datelike;
use chrono::TimeZone;
use chrono::Timelike;

verus! {

/// The last second of year 9999 (UTC). Every timestamp this library hands to
/// the calendar conversion lies in `0..=MAX_CIVIL_TIMESTAMP`, far inside the
/// range chrono converts without error.
pub const MAX_CIVIL_TIMESTAMP: i64 = 253402300799;

/// One instant, as the local calendar reads it: the originating Unix
/// timestamp together with the local year, month, day and hour.
#[derive(Clone, Copy, Debug, PartialEq, Eq, Structural)]
pub struct CivilDate {
    pub timestamp: i64,
    pub year: i32,
    pub month: u32,
    pub day: u32,
    pub hour: u32,
}

impl CivilDate {
    /// Field ranges every converted instant satisfies: the documented ranges
    /// of the calendar accessors, and a year window wide enough for any
    /// local-time offset applied to a timestamp in `0..=MAX_CIVIL_TIMESTAMP`.
    pub open spec fn wf(self) -> bool {
        &&& 0 <= self.timestamp <= MAX_CIVIL_TIMESTAMP
        &&& 1969 <= self.year <= 10000
        &&& 1 <= self.month <= 12
        &&& 1 <= self.day <= 31
        &&& self.hour <= 23
    }
}

/// Relies on chrono: `TimeZone::timestamp_opt` on `chrono::Local` maps a
/// number of non-leap seconds since the Unix epoch to the corresponding
/// local `DateTime` (always `Single` for an in-range timestamp, and
/// `timestamp()` on the result returns the same number), and the
/// `Datelike`/`Timelike` accessors return month 1..=12, day 1..=31 and
/// hour 0..=23. The civil fields depend on the machine's time zone, so
/// nothing more than those ranges is claimed of them.
#[verifier::external_body]
pub fn local_civil_of_timestamp(ts: i64) -> (d: CivilDate)
    requires
        0 <= ts <= MAX_CIVIL_TIMESTAMP,
    ensures
        d.timestamp == ts,
        d.wf(),
{
    let dt = chrono::Local.timestamp_opt(ts, 0).unwrap();
    CivilDate {
        timestamp: dt.timestamp(),
        year: dt.year(),
        month: dt.month(),
        day: dt.day(),
        hour: dt.hour(),
    }
}

} // verus!
