//! The one value the library takes from the outside world: the local
//! wall-clock time, read through chrono and handed on as plain fields. All
//! scheduling decisions take the clock reading as an argument, so they are
//! verified for every value it could have.
use vstd::prelude::*;

use chrono::Datelike;
use chrono::Timelike;

use crate::datetime::DateTime;

verus! {

/// Relies on chrono::Local::now, read out through the Datelike/Timelike
/// accessors of the naive local time: month is documented in 1..=12, day of
/// month in 1..=31, hour below 24, minute and second below 60 (the year is
/// unconstrained here and checked by the caller).
#[verifier::external_body]
fn local_now_fields() -> (p: (i64, u32, u32, u32, u32, u32))
    ensures
        1 <= p.1 <= 12,
        1 <= p.2 <= 31,
        p.3 <= 23,
        p.4 <= 59,
        p.5 <= 59,
{
    let n = chrono::Local::now().naive_local();
    (n.year() as i64, n.month(), n.day(), n.hour(), n.minute(), n.second())
}

/// Reads the local clock. The reading is out of the library's hands, so
/// nothing relates two calls; what is promised is that any timestamp handed
/// back is well-formed. A clock outside the four-digit years is refused.
pub fn local_now() -> (r: Option<DateTime>)
    ensures
        r matches Some(t) ==> t.wf(),
{
    let (year, month, day, hour, minute, second) = local_now_fields();
    if year < 0 || year > 9999 {
        return None;
    }
    DateTime::from_fields(year as u32, month, day, hour, minute, second)
}

} // verus!
