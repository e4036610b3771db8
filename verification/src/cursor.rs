//! The navigation cursor of an open picker dialog: the zoom level
//! (days, months or years), the focused month, year or sixteen-year
//! group, the prev/next/zoom transitions, and the rule that hides a
//! prev or next button whose whole adjacent unit is forbidden.

use vstd::prelude::*;
use crate::calendar::instant_valid;
use crate::calendar::CalendarDate;
use crate::calendar::CalendarInstant;
use crate::constraints::is_month_forbidden;
use crate::constraints::is_year_forbidden;
use crate::constraints::is_year_group_forbidden;
use crate::constraints::month_forbidden;
use crate::constraints::year_forbidden;
use crate::constraints::year_group_forbidden;
use crate::constraints::DateConstraints;
use crate::chars::num_str;
use crate::chars::push_num;
use crate::render::month_thai_full;
use crate::render::month_thai_full_seq;

verus! {

/// The zoom level of the picker dialog; years are coarsest.
#[derive(Clone, Copy, PartialEq, Eq, Structural, Debug)]
pub enum DialogViewType {
    Days,
    Months,
    Years,
}

/// First year of the sixteen-year group that `year` belongs to.
pub open spec fn year_group_start_spec(year: int) -> int {
    year - year % 16
}

/// Last year of the sixteen-year group that `year` belongs to.
pub open spec fn year_group_end_spec(year: int) -> int {
    year_group_start_spec(year) + 15
}

/// First year of the sixteen-year group that `year` belongs to.
pub fn year_group_start(year: i32) -> (r: i32)
    requires
        0 <= year,
    ensures
        r == year_group_start_spec(year as int),
{
    year - year % 16
}

/// Last year of the sixteen-year group that `year` belongs to.
pub fn year_group_end(year: i32) -> (r: i32)
    requires
        0 <= year,
    ensures
        r == year_group_end_spec(year as int),
{
    year_group_start(year) + 15
}

/// Sixteen years onward, the group start moves by exactly sixteen: the
/// year groups tile the years in order.
pub proof fn lemma_year_group_step(year: int)
    ensures
        year_group_start_spec(year + 16) == year_group_start_spec(year) + 16,
{
    assert((year + 16) % 16 == year % 16) by (nonlinear_arith);
}

/// Stepping onward at the years level moves the focus to the next
/// sixteen-year group: repeated steps traverse consecutive groups in
/// order.
pub proof fn lemma_years_step_next_bucket(v: ViewCursor)
    requires
        v.granularity == DialogViewType::Years,
        v.focus.date.year + 16 <= 9999,
    ensures
        year_group_start_spec(next_focus_spec(v.granularity, v.focus).date.year as int)
            == year_group_start_spec(v.focus.date.year as int) + 16,
{
    lemma_year_group_step(v.focus.date.year as int);
}

/// The navigation state of an open dialog: a zoom level and the focused
/// instant. The focus day is kept normalized to the first of its month,
/// so every step lands on a real calendar day; the focus time carries
/// the time-of-day shown by the paired time panel.
#[derive(Clone, Copy, PartialEq, Eq, Structural, Debug)]
pub struct ViewCursor {
    pub granularity: DialogViewType,
    pub focus: CalendarInstant,
}

/// The zoom level above `g`, if any.
pub open spec fn coarser(g: DialogViewType) -> Option<DialogViewType> {
    match g {
        DialogViewType::Days => Some(DialogViewType::Months),
        DialogViewType::Months => Some(DialogViewType::Years),
        DialogViewType::Years => None,
    }
}

/// The focus one unit back at the cursor's zoom level: the previous
/// month at days, the previous year at months, the previous sixteen-year
/// group at years; at the lower edge of the model the focus stays.
pub open spec fn prev_focus_spec(g: DialogViewType, f: CalendarInstant) -> CalendarInstant {
    let d = f.date;
    let nd = match g {
        DialogViewType::Days => {
            if d.month > 1 {
                CalendarDate { year: d.year, month: (d.month - 1) as u8, day: 1 }
            } else if d.year > 1 {
                CalendarDate { year: (d.year - 1) as i32, month: 12, day: 1 }
            } else {
                CalendarDate { year: d.year, month: d.month, day: 1 }
            }
        },
        DialogViewType::Months => {
            if d.year > 1 {
                CalendarDate { year: (d.year - 1) as i32, month: d.month, day: 1 }
            } else {
                CalendarDate { year: d.year, month: d.month, day: 1 }
            }
        },
        DialogViewType::Years => {
            if d.year - 16 >= 1 {
                CalendarDate { year: (d.year - 16) as i32, month: d.month, day: 1 }
            } else {
                CalendarDate { year: d.year, month: d.month, day: 1 }
            }
        },
    };
    CalendarInstant { date: nd, time: f.time }
}

/// The focus one unit onward at the cursor's zoom level; at the upper
/// edge of the model the focus stays.
pub open spec fn next_focus_spec(g: DialogViewType, f: CalendarInstant) -> CalendarInstant {
    let d = f.date;
    let nd = match g {
        DialogViewType::Days => {
            if d.month < 12 {
                CalendarDate { year: d.year, month: (d.month + 1) as u8, day: 1 }
            } else if d.year < 9999 {
                CalendarDate { year: (d.year + 1) as i32, month: 1, day: 1 }
            } else {
                CalendarDate { year: d.year, month: d.month, day: 1 }
            }
        },
        DialogViewType::Months => {
            if d.year < 9999 {
                CalendarDate { year: (d.year + 1) as i32, month: d.month, day: 1 }
            } else {
                CalendarDate { year: d.year, month: d.month, day: 1 }
            }
        },
        DialogViewType::Years => {
            if d.year + 16 <= 9999 {
                CalendarDate { year: (d.year + 16) as i32, month: d.month, day: 1 }
            } else {
                CalendarDate { year: d.year, month: d.month, day: 1 }
            }
        },
    };
    CalendarInstant { date: nd, time: f.time }
}

/// Whether the previous unit at the cursor's zoom level has a selectable
/// part: the dialog shows a prev button exactly then. At the lower edge
/// of the model there is no previous unit.
pub open spec fn prev_visible_spec(v: ViewCursor, c: DateConstraints) -> bool {
    let d = v.focus.date;
    match v.granularity {
        DialogViewType::Days => {
            if d.month > 1 {
                !month_forbidden(c, d.year as int, d.month - 1)
            } else if d.year > 1 {
                !month_forbidden(c, d.year - 1, 12)
            } else {
                false
            }
        },
        DialogViewType::Months => {
            if d.year > 1 {
                !year_forbidden(c, d.year - 1)
            } else {
                false
            }
        },
        DialogViewType::Years => {
            if year_group_start_spec(d.year as int) - 16 >= 1 {
                !year_group_forbidden(c, year_group_start_spec(d.year as int) - 16)
            } else {
                false
            }
        },
    }
}

/// Whether the next unit at the cursor's zoom level has a selectable
/// part: the dialog shows a next button exactly then.
pub open spec fn next_visible_spec(v: ViewCursor, c: DateConstraints) -> bool {
    let d = v.focus.date;
    match v.granularity {
        DialogViewType::Days => {
            if d.month < 12 {
                !month_forbidden(c, d.year as int, d.month + 1)
            } else if d.year < 9999 {
                !month_forbidden(c, d.year + 1, 1)
            } else {
                false
            }
        },
        DialogViewType::Months => {
            if d.year < 9999 {
                !year_forbidden(c, d.year + 1)
            } else {
                false
            }
        },
        DialogViewType::Years => {
            if year_group_start_spec(d.year as int) + 16 + 15 <= 9999 {
                !year_group_forbidden(c, year_group_start_spec(d.year as int) + 16)
            } else {
                false
            }
        },
    }
}

/// Dialog title text: the focused month and Buddhist-era year at days,
/// the year alone at months, the Buddhist-era year group at years.
pub open spec fn title_seq(g: DialogViewType, d: CalendarDate) -> Seq<char> {
    match g {
        DialogViewType::Days => month_thai_full_seq(d.month as int) + seq![' '] + num_str(
            d.year + 543,
        ),
        DialogViewType::Months => num_str(d.year + 543),
        DialogViewType::Years => num_str(year_group_start_spec(d.year + 543)) + " - "@ + num_str(
            year_group_end_spec(d.year + 543),
        ),
    }
}

impl ViewCursor {
    /// A cursor is well-formed when its focus is a real calendar day
    /// with a valid time.
    pub open spec fn wf(&self) -> bool {
        instant_valid(self.focus)
    }

    /// Opens a cursor at a zoom level and focus.
    pub fn new(granularity: DialogViewType, focus: CalendarInstant) -> (r: ViewCursor)
        requires
            instant_valid(focus),
        ensures
            r.wf(),
            r.granularity == granularity,
            r.focus == focus,
    {
        ViewCursor { granularity, focus }
    }

    /// Zooms one level out (clicking the title); at years nothing
    /// changes.
    pub fn zoom_out(&mut self)
        ensures
            final(self).granularity == match coarser(old(self).granularity) {
                Some(g) => g,
                None => old(self).granularity,
            },
            final(self).focus == old(self).focus,
            old(self).wf() ==> final(self).wf(),
    {
        match self.granularity {
            DialogViewType::Days => {
                self.granularity = DialogViewType::Months;
            },
            DialogViewType::Months => {
                self.granularity = DialogViewType::Years;
            },
            DialogViewType::Years => {},
        }
    }

    /// Steps the focus one unit back at the current zoom level.
    pub fn step_prev(&mut self)
        requires
            old(self).wf(),
        ensures
            final(self).wf(),
            final(self).granularity == old(self).granularity,
            final(self).focus == prev_focus_spec(old(self).granularity, old(self).focus),
    {
        let d = self.focus.date;
        let nd = match self.granularity {
            DialogViewType::Days => {
                if d.month > 1 {
                    CalendarDate { year: d.year, month: d.month - 1, day: 1 }
                } else if d.year > 1 {
                    CalendarDate { year: d.year - 1, month: 12, day: 1 }
                } else {
                    CalendarDate { year: d.year, month: d.month, day: 1 }
                }
            },
            DialogViewType::Months => {
                if d.year > 1 {
                    CalendarDate { year: d.year - 1, month: d.month, day: 1 }
                } else {
                    CalendarDate { year: d.year, month: d.month, day: 1 }
                }
            },
            DialogViewType::Years => {
                if d.year >= 17 {
                    CalendarDate { year: d.year - 16, month: d.month, day: 1 }
                } else {
                    CalendarDate { year: d.year, month: d.month, day: 1 }
                }
            },
        };
        self.focus = CalendarInstant { date: nd, time: self.focus.time };
    }

    /// Steps the focus one unit onward at the current zoom level. At
    /// years this moves to the next sixteen-year group in order (see
    /// `lemma_year_group_step`).
    pub fn step_next(&mut self)
        requires
            old(self).wf(),
        ensures
            final(self).wf(),
            final(self).granularity == old(self).granularity,
            final(self).focus == next_focus_spec(old(self).granularity, old(self).focus),
    {
        let d = self.focus.date;
        let nd = match self.granularity {
            DialogViewType::Days => {
                if d.month < 12 {
                    CalendarDate { year: d.year, month: d.month + 1, day: 1 }
                } else if d.year < 9999 {
                    CalendarDate { year: d.year + 1, month: 1, day: 1 }
                } else {
                    CalendarDate { year: d.year, month: d.month, day: 1 }
                }
            },
            DialogViewType::Months => {
                if d.year < 9999 {
                    CalendarDate { year: d.year + 1, month: d.month, day: 1 }
                } else {
                    CalendarDate { year: d.year, month: d.month, day: 1 }
                }
            },
            DialogViewType::Years => {
                if d.year + 16 <= 9999 {
                    CalendarDate { year: d.year + 16, month: d.month, day: 1 }
                } else {
                    CalendarDate { year: d.year, month: d.month, day: 1 }
                }
            },
        };
        self.focus = CalendarInstant { date: nd, time: self.focus.time };
    }

    /// Whether the dialog shows the prev button: hidden exactly when the
    /// previous unit at this zoom level is entirely forbidden (or does
    /// not exist).
    pub fn prev_visible(&self, c: &DateConstraints) -> (r: bool)
        requires
            self.wf(),
        ensures
            r == prev_visible_spec(*self, *c),
    {
        let d = self.focus.date;
        match self.granularity {
            DialogViewType::Days => {
                if d.month > 1 {
                    !is_month_forbidden(c, d.year, d.month - 1)
                } else if d.year > 1 {
                    !is_month_forbidden(c, d.year - 1, 12)
                } else {
                    false
                }
            },
            DialogViewType::Months => {
                if d.year > 1 {
                    !is_year_forbidden(c, d.year - 1)
                } else {
                    false
                }
            },
            DialogViewType::Years => {
                let start = year_group_start(d.year);
                if start - 16 >= 1 {
                    !is_year_group_forbidden(c, start - 16)
                } else {
                    false
                }
            },
        }
    }

    /// Whether the dialog shows the next button: hidden exactly when the
    /// next unit at this zoom level is entirely forbidden (or does not
    /// exist).
    pub fn next_visible(&self, c: &DateConstraints) -> (r: bool)
        requires
            self.wf(),
        ensures
            r == next_visible_spec(*self, *c),
    {
        let d = self.focus.date;
        match self.granularity {
            DialogViewType::Days => {
                if d.month < 12 {
                    !is_month_forbidden(c, d.year, d.month + 1)
                } else if d.year < 9999 {
                    !is_month_forbidden(c, d.year + 1, 1)
                } else {
                    false
                }
            },
            DialogViewType::Months => {
                if d.year < 9999 {
                    !is_year_forbidden(c, d.year + 1)
                } else {
                    false
                }
            },
            DialogViewType::Years => {
                let start = year_group_start(d.year);
                if start + 31 <= 9999 {
                    !is_year_group_forbidden(c, start + 16)
                } else {
                    false
                }
            },
        }
    }
}

/// The date shown in cell `i` of a 42-cell day grid for month `m` of
/// year `y`, whose first `off` cells come from the previous month.
pub open spec fn grid_cell_spec(y: int, m: int, off: int, i: int) -> CalendarDate {
    if i < off {
        if m > 1 {
            CalendarDate {
                year: y as i32,
                month: (m - 1) as u8,
                day: (crate::calendar::days_in_month(y, m - 1) - off + i + 1) as u8,
            }
        } else {
            CalendarDate { year: (y - 1) as i32, month: 12, day: (31 - off + i + 1) as u8 }
        }
    } else if i < off + crate::calendar::days_in_month(y, m) {
        CalendarDate { year: y as i32, month: m as u8, day: (i - off + 1) as u8 }
    } else {
        if m < 12 {
            CalendarDate {
                year: y as i32,
                month: (m + 1) as u8,
                day: (i - off - crate::calendar::days_in_month(y, m) + 1) as u8,
            }
        } else {
            CalendarDate { year: (y + 1) as i32, month: 1, day: (i - off - 31 + 1) as u8 }
        }
    }
}

/// The six-week day grid shown at the days zoom level: forty-two real
/// calendar days, the first of the focused month at index equal to its
/// weekday (counted from Sunday), preceded by the tail of the previous
/// month and followed by the head of the next. The focused month must
/// have both neighbours inside the model's year range.
pub fn month_grid(y: i32, m: u8) -> (r: Vec<CalendarDate>)
    requires
        2 <= y <= 9998,
        1 <= m <= 12,
    ensures
        r@.len() == 42,
        forall|i: int|
            0 <= i < 42 ==> #[trigger] r@[i] == grid_cell_spec(
                y as int,
                m as int,
                crate::calendar::weekday_of(y as int, m as int, 1),
                i,
            ),
        forall|i: int| 0 <= i < 42 ==> crate::calendar::date_valid(#[trigger] r@[i]),
{
    let first = CalendarDate { year: y, month: m, day: 1 };
    let off: u8 = crate::calendar::weekday_number(&first);
    let ghost offi = off as int;
    let len: u8 = crate::calendar::month_length(y, m);
    let prev_len: u8 = if m > 1 {
        crate::calendar::month_length(y, m - 1)
    } else {
        31
    };
    let mut r: Vec<CalendarDate> = Vec::new();
    let mut i: u8 = 0;
    while i < 42
        invariant
            0 <= i <= 42,
            2 <= y <= 9998,
            1 <= m <= 12,
            offi == crate::calendar::weekday_of(y as int, m as int, 1),
            off == offi,
            off < 7,
            len == crate::calendar::days_in_month(y as int, m as int),
            prev_len == if m > 1 {
                crate::calendar::days_in_month(y as int, m - 1)
            } else {
                31int
            },
            r@.len() == i,
            forall|j: int|
                0 <= j < i ==> #[trigger] r@[j] == grid_cell_spec(y as int, m as int, offi, j),
            forall|j: int| 0 <= j < i ==> crate::calendar::date_valid(#[trigger] r@[j]),
        decreases 42 - i,
    {
        let cell: CalendarDate = if i < off {
            if m > 1 {
                CalendarDate { year: y, month: m - 1, day: prev_len - off + i + 1 }
            } else {
                CalendarDate { year: y - 1, month: 12, day: 31 - off + i + 1 }
            }
        } else if i < off + len {
            CalendarDate { year: y, month: m, day: i - off + 1 }
        } else {
            if m < 12 {
                CalendarDate { year: y, month: m + 1, day: i - off - len + 1 }
            } else {
                CalendarDate { year: y + 1, month: 1, day: i - off - len + 1 }
            }
        };
        r.push(cell);
        i += 1;
    }
    r
}

/// The dialog title for a zoom level and focused date.
pub fn create_dialog_title_text(dialog_view_type: &DialogViewType, viewed_date: &CalendarDate) -> (r:
    String)
    requires
        crate::calendar::date_valid(*viewed_date),
    ensures
        r@ == title_seq(*dialog_view_type, *viewed_date),
{
    match dialog_view_type {
        DialogViewType::Days => {
            let mut s = String::from_str(month_thai_full(viewed_date.month));
            s.append(" ");
            push_num(&mut s, (viewed_date.year + 543) as u64);
            proof {
                reveal_strlit(" ");
                assert(" "@ =~= seq![' ']);
                assert(s@ =~= title_seq(*dialog_view_type, *viewed_date));
            }
            s
        },
        DialogViewType::Months => {
            let mut s = String::new();
            push_num(&mut s, (viewed_date.year + 543) as u64);
            s
        },
        DialogViewType::Years => {
            let be: i32 = viewed_date.year + 543;
            let mut s = String::new();
            push_num(&mut s, year_group_start(be) as u64);
            s.append(" - ");
            push_num(&mut s, year_group_end(be) as u64);
            proof {
                assert(s@ =~= title_seq(*dialog_view_type, *viewed_date));
            }
            s
        },
    }
}

} // verus!
