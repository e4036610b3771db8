//! Selectability constraints: which calendar cells a picker offers.
//!
//! A `DateConstraints` holds optional lower and upper instants, disabled
//! weekdays and disabled days-of-month. Days are forbidden directly;
//! months, years and year groups only by every one of their parts being
//! forbidden, so a coarser cell stays selectable as long as one of its
//! days is.

use vstd::prelude::*;
use crate::calendar::date_before;
use crate::calendar::date_valid;
use crate::calendar::date_is_before;
use crate::calendar::days_in_month;
use crate::calendar::instant_before;
use crate::calendar::instant_is_before;
use crate::calendar::instant_valid;
use crate::calendar::month_length;
use crate::calendar::weekday_number;
use crate::calendar::weekday_of;
use crate::calendar::CalendarDate;
use crate::calendar::CalendarInstant;

verus! {

/// The configured limits on selectable values.
#[derive(Clone, Debug)]
pub struct DateConstraints {
    /// Values before this instant are out of range.
    pub min_datetime: Option<CalendarInstant>,
    /// Values after this instant are out of range.
    pub max_datetime: Option<CalendarInstant>,
    /// Weekdays never selectable, 0 = Sunday .. 6 = Saturday.
    pub disabled_weekdays: Vec<u8>,
    /// Days of month never selectable, 1..=31.
    pub disabled_monthly_dates: Vec<u8>,
}

impl DateConstraints {
    /// Bounds, when set, must be real instants.
    pub open spec fn wf(&self) -> bool {
        (match self.min_datetime {
            Some(i) => instant_valid(i),
            None => true,
        }) && (match self.max_datetime {
            Some(i) => instant_valid(i),
            None => true,
        })
    }

    /// No limits at all.
    pub fn unconstrained() -> (r: DateConstraints)
        ensures
            r.min_datetime is None,
            r.max_datetime is None,
            r.disabled_weekdays@ == Seq::<u8>::empty(),
            r.disabled_monthly_dates@ == Seq::<u8>::empty(),
    {
        DateConstraints {
            min_datetime: None,
            max_datetime: None,
            disabled_weekdays: Vec::new(),
            disabled_monthly_dates: Vec::new(),
        }
    }
}

/// A day is forbidden when it falls outside the configured bounds at day
/// resolution, its weekday is disabled, or its day-of-month is disabled.
pub open spec fn day_forbidden(c: DateConstraints, d: CalendarDate) -> bool {
    (match c.min_datetime {
        Some(mi) => date_before(d, mi.date),
        None => false,
    }) || (match c.max_datetime {
        Some(ma) => date_before(ma.date, d),
        None => false,
    }) || c.disabled_weekdays@.contains(
        weekday_of(d.year as int, d.month as int, d.day as int) as u8,
    ) || c.disabled_monthly_dates@.contains(d.day)
}

/// A month is forbidden exactly when every day in it is.
pub open spec fn month_forbidden(c: DateConstraints, y: int, m: int) -> bool {
    forall|dd: u8|
        1 <= dd <= days_in_month(y, m) ==> #[trigger] day_forbidden(
            c,
            CalendarDate { year: y as i32, month: m as u8, day: dd },
        )
}

/// A year is forbidden exactly when every month in it is.
pub open spec fn year_forbidden(c: DateConstraints, y: int) -> bool {
    forall|mm: int| 1 <= mm <= 12 ==> #[trigger] month_forbidden(c, y, mm)
}

/// A sixteen-year group is forbidden exactly when every year in it is.
pub open spec fn year_group_forbidden(c: DateConstraints, start: int) -> bool {
    forall|yy: int| start <= yy < start + 16 ==> #[trigger] year_forbidden(c, yy)
}

/// A month with a selectable day makes its year, and its year's group,
/// selectable too: constraints lift through the granularities only by
/// forbidding every part.
pub proof fn lemma_allowed_month_lifts(c: DateConstraints, y: int, m: int)
    requires
        1 <= m <= 12,
        !month_forbidden(c, y, m),
    ensures
        !year_forbidden(c, y),
        !year_group_forbidden(c, crate::cursor::year_group_start_spec(y)),
{
    let start = crate::cursor::year_group_start_spec(y);
    assert(0 <= y % 16 < 16);
    assert(start <= y < start + 16);
    assert(year_forbidden(c, y) ==> month_forbidden(c, y, m));
    assert(!year_forbidden(c, y));
    assert(year_group_forbidden(c, start) ==> year_forbidden(c, y));
}

/// An exact instant is forbidden when it falls outside the configured
/// bounds at minute resolution.
pub open spec fn instant_forbidden(c: DateConstraints, i: CalendarInstant) -> bool {
    (match c.min_datetime {
        Some(mi) => instant_before(i, mi),
        None => false,
    }) || (match c.max_datetime {
        Some(ma) => instant_before(ma, i),
        None => false,
    })
}

/// Whether `v` holds `x`.
fn contains_u8(v: &Vec<u8>, x: u8) -> (r: bool)
    ensures
        r == v@.contains(x),
{
    let mut k: usize = 0;
    while k < v.len()
        invariant
            0 <= k <= v@.len(),
            forall|i: int| 0 <= i < k ==> v@[i] != x,
        decreases v@.len() - k,
    {
        if v[k] == x {
            return true;
        }
        k += 1;
    }
    false
}

/// Whether the single day `d` is forbidden.
pub fn is_day_forbidden(c: &DateConstraints, d: &CalendarDate) -> (r: bool)
    requires
        date_valid(*d),
    ensures
        r == day_forbidden(*c, *d),
{
    let below = match &c.min_datetime {
        Some(mi) => date_is_before(d, &mi.date),
        None => false,
    };
    let above = match &c.max_datetime {
        Some(ma) => date_is_before(&ma.date, d),
        None => false,
    };
    let wd = weekday_number(d);
    below || above || contains_u8(&c.disabled_weekdays, wd) || contains_u8(
        &c.disabled_monthly_dates,
        d.day,
    )
}

/// Whether every day of month `m` of year `y` is forbidden.
pub fn is_month_forbidden(c: &DateConstraints, y: i32, m: u8) -> (r: bool)
    requires
        1 <= y <= 9999,
        1 <= m <= 12,
    ensures
        r == month_forbidden(*c, y as int, m as int),
{
    let last = month_length(y, m);
    let mut dd: u8 = 1;
    while dd <= last
        invariant
            1 <= dd <= last + 1,
            last == days_in_month(y as int, m as int),
            1 <= y <= 9999,
            1 <= m <= 12,
            forall|d0: u8|
                1 <= d0 < dd ==> #[trigger] day_forbidden(
                    *c,
                    CalendarDate { year: y, month: m, day: d0 },
                ),
        decreases last + 1 - dd,
    {
        let cand = CalendarDate { year: y, month: m, day: dd };
        if !is_day_forbidden(c, &cand) {
            proof {
                assert(cand == CalendarDate {
                    year: ((y as int) as i32),
                    month: ((m as int) as u8),
                    day: dd,
                });
                assert(!month_forbidden(*c, y as int, m as int));
            }
            return false;
        }
        dd += 1;
    }
    true
}

/// Whether every month of year `y` is forbidden.
pub fn is_year_forbidden(c: &DateConstraints, y: i32) -> (r: bool)
    requires
        1 <= y <= 9999,
    ensures
        r == year_forbidden(*c, y as int),
{
    let mut mm: u8 = 1;
    while mm <= 12
        invariant
            1 <= mm <= 13,
            1 <= y <= 9999,
            forall|m0: int| 1 <= m0 < mm ==> #[trigger] month_forbidden(*c, y as int, m0),
        decreases 13 - mm,
    {
        if !is_month_forbidden(c, y, mm) {
            return false;
        }
        mm += 1;
    }
    true
}

/// Whether every year of the sixteen-year group starting at `start` is
/// forbidden.
pub fn is_year_group_forbidden(c: &DateConstraints, start: i32) -> (r: bool)
    requires
        1 <= start,
        start + 15 <= 9999,
    ensures
        r == year_group_forbidden(*c, start as int),
{
    let mut yy: i32 = start;
    while yy < start + 16
        invariant
            start <= yy <= start + 16,
            1 <= start,
            start + 15 <= 9999,
            forall|y0: int| start <= y0 < yy ==> #[trigger] year_forbidden(*c, y0),
        decreases start + 16 - yy,
    {
        if !is_year_forbidden(c, yy) {
            return false;
        }
        yy += 1;
    }
    true
}

/// Whether the exact instant `i` is forbidden.
pub fn is_instant_forbidden(c: &DateConstraints, i: &CalendarInstant) -> (r: bool)
    ensures
        r == instant_forbidden(*c, *i),
{
    let below = match &c.min_datetime {
        Some(mi) => instant_is_before(i, mi),
        None => false,
    };
    let above = match &c.max_datetime {
        Some(ma) => instant_is_before(ma, i),
        None => false,
    };
    below || above
}

} // verus!
