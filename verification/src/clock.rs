//! The wall clock. The picker shows and parses times on a fixed UTC+7
//! clock; everything that depends on "now" (century inference for short
//! years, the Today button, relative day names) takes the current instant
//! from here and is otherwise pure.

use vstd::prelude::*;
use crate::calendar::days_in_month;
use crate::calendar::instant_valid;
use crate::calendar::CalendarDate;
use crate::calendar::CalendarInstant;
use crate::calendar::ClockTime;

verus! {

/// Relies on time::OffsetDateTime::now_utc followed by time::OffsetDateTime::to_offset
/// for the current moment on a UTC+7 clock. Nothing can be promised about
/// which moment comes back; time's accessors do guarantee that the
/// components form a real calendar date within year -9999..=9999 and a
/// valid hour and minute.
#[verifier::external_body]
fn clock_now_parts() -> (r: (i32, u8, u8, u8, u8))
    ensures
        -9999 <= r.0 <= 9999,
        1 <= r.1 <= 12,
        1 <= r.2 <= days_in_month(r.0 as int, r.1 as int),
        r.3 < 24,
        r.4 < 60,
{
    let offset = time::UtcOffset::from_hms(7, 0, 0).unwrap();
    let local = time::OffsetDateTime::now_utc().to_offset(offset);
    (local.year(), local.month() as u8, local.day(), local.hour(), local.minute())
}

/// The current date and time on a UTC+7 wall clock, clamped into this
/// model's year range 1..=9999.
pub fn now() -> (r: CalendarInstant)
    ensures
        instant_valid(r),
{
    let (y, mo, d, h, mi) = clock_now_parts();
    let date: CalendarDate = if y < 1 {
        CalendarDate { year: 1, month: 1, day: 1 }
    } else {
        CalendarDate { year: y, month: mo, day: d }
    };
    CalendarInstant { date, time: ClockTime { hour: h, minute: mi } }
}

} // verus!
