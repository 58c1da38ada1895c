//! The crate's only window on the clock.
use vstd::prelude::*;
use crate::logstore::Day;

verus! {

/// Relies on `time::get_time`: the current time, in seconds since
/// 1970-01-01T00:00:00Z. Nothing can be promised of a clock reading.
#[verifier::external_body]
pub fn now_secs() -> i64 {
    time::get_time().sec
}

/// Relies on `time::now`: the current local calendar date, handed back as the
/// raw fields of a `Tm`: years since 1900, months since January (documented
/// as 0 through 11), and day of month (documented as 1 through 31).
#[verifier::external_body]
fn now_tm_date() -> (r: (i64, i64, i64))
    ensures
        0 <= r.1 <= 11,
        1 <= r.2 <= 31,
{
    let tm = time::now();
    (tm.tm_year as i64, tm.tm_mon as i64, tm.tm_mday as i64)
}

/// Today's local calendar date, as a well-formed day.
pub fn today() -> (r: Day)
    ensures
        r.wf(),
{
    let (y, m, d) = now_tm_date();
    let yy: i64 = if y < -999000 {
        -999000
    } else if y > 999000 {
        999000
    } else {
        y
    };
    Day::from_parts(yy + 1900, m + 1, d)
}

} // verus!
