//! The one place the library reads the clock: the current UTC instant as
//! plain calendar and clock fields, and the current calendar year that the
//! release-year bound is checked against.

use vstd::prelude::*;

use crate::album::Timestamp;

verus! {

/// Relies on `chrono::Utc::now` together with the `chrono::Datelike`
/// accessors `year`, `month`, `day` and the `chrono::Timelike` accessors
/// `hour`, `minute`, `second` on the returned `DateTime<Utc>`: the fields of
/// the current UTC instant, in that order.  chrono documents `month` as 1 to
/// 12, `day` as 1 to 31, `hour` as 0 to 23, and `minute` and `second` as 0
/// to 59 (a leap second is carried in the nanosecond field, not here); it
/// documents no bound on `year`, and the result depends on the clock, so
/// nothing else is assumed.
#[verifier::external_body]
fn utc_now_fields() -> (r: (i32, u32, u32, u32, u32, u32))
    ensures
        1 <= r.1 <= 12,
        1 <= r.2 <= 31,
        r.3 < 24,
        r.4 < 60,
        r.5 < 60,
{
    let now = chrono::Utc::now();
    (
        chrono::Datelike::year(&now),
        chrono::Datelike::month(&now),
        chrono::Datelike::day(&now),
        chrono::Timelike::hour(&now),
        chrono::Timelike::minute(&now),
        chrono::Timelike::second(&now),
    )
}

/// The current UTC instant as a [`Timestamp`].  `None` only when the clock
/// reports a year outside the four-digit range the storage format carries.
pub fn current_timestamp() -> (r: Option<Timestamp>)
    ensures
        r matches Some(t) ==> t.wf(),
{
    let (year, month, day, hour, minute, second) = utc_now_fields();
    Timestamp::from_parts(year, month, day, hour, minute, second)
}

/// The current UTC calendar year, the upper bound for release-year
/// validation.  Whatever the clock reports; nothing is assumed of it.
pub fn current_year() -> i32 {
    let (year, _month, _day, _hour, _minute, _second) = utc_now_fields();
    year
}

} // verus!
