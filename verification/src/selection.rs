//! The working state of one open picker dialog and its commit protocol.
//!
//! A dialog owns a `SelectionState`: a navigation cursor, the in-progress
//! selection (date, hour, minute), the dialog mode, and the immutable
//! configuration. Every cell click and every footer click is a method
//! here; each returns what the dialog should do next: stay open, close
//! leaving the host field untouched, or close writing a canonical string
//! to it. A combined date-and-time dialog never writes a partial value:
//! until a date and a full time exist, closing keeps the host field as
//! it was.

use vstd::prelude::*;
use crate::calendar::date_valid;
use crate::calendar::instant_valid;
use crate::calendar::CalendarDate;
use crate::calendar::CalendarInstant;
use crate::calendar::ClockTime;
use crate::constraints::day_forbidden;
use crate::constraints::instant_forbidden;
use crate::constraints::is_day_forbidden;
use crate::constraints::is_instant_forbidden;
use crate::constraints::is_month_forbidden;
use crate::constraints::is_year_forbidden;
use crate::constraints::month_forbidden;
use crate::constraints::year_forbidden;
use crate::constraints::DateConstraints;
use crate::cursor::DialogViewType;
use crate::cursor::ViewCursor;
use crate::iso::date_8601;
use crate::iso::datetime_8601;
use crate::iso::parse_iso_date_seq;
use crate::iso::parse_iso_datetime_seq;
use crate::iso::parse_iso_time_seq;
use crate::iso::time_8601;
use crate::render::iso_date_seq;
use crate::render::iso_datetime_seq;
use crate::render::iso_time_seq;
use crate::render::JsTime;

verus! {

/// Which values a dialog edits.
#[derive(Clone, Copy, PartialEq, Eq, Structural, Debug)]
pub enum Picker {
    DateTime,
    Date,
    Time,
}

/// The immutable configuration a dialog is created with.
#[derive(Clone, Debug)]
pub struct PickerConfig {
    /// Which values are selectable.
    pub constraints: DateConstraints,
    /// The coarsest level at which a click commits a value.
    pub selection_granularity: DialogViewType,
    /// The zoom level a dialog opens at.
    pub initial_granularity: DialogViewType,
    /// The value offered when the host field holds none.
    pub initial_value: Option<CalendarInstant>,
}

impl PickerConfig {
    /// A configuration is well-formed when its initial value, if any, is
    /// a real instant.
    pub open spec fn wf(&self) -> bool {
        self.constraints.wf() && match self.initial_value {
            Some(v) => instant_valid(v),
            None => true,
        }
    }

    /// The default configuration: no constraints, day selection, no
    /// initial value.
    pub fn new_default() -> (r: PickerConfig)
        ensures
            r.wf(),
            r.constraints.min_datetime is None,
            r.constraints.max_datetime is None,
            r.selection_granularity == DialogViewType::Days,
            r.initial_granularity == DialogViewType::Days,
            r.initial_value is None,
    {
        PickerConfig {
            constraints: DateConstraints::unconstrained(),
            selection_granularity: DialogViewType::Days,
            initial_granularity: DialogViewType::Days,
            initial_value: None,
        }
    }
}

/// What the dialog should do after a click.
#[derive(PartialEq, Eq, Debug)]
pub enum ExitOutcome {
    /// The dialog stays open.
    StayOpen,
    /// The dialog closes; the host field keeps its value.
    CloseKeep,
    /// The dialog closes, writing this canonical text (possibly empty,
    /// which clears the field) to the host field.
    CloseWrite(String),
}

/// A date normalized to the coarseness of a zoom level: itself for day
/// cells, the first of its month for month cells, the first of January
/// for year cells.
pub open spec fn normalize_spec(d: CalendarDate, g: DialogViewType) -> CalendarDate {
    match g {
        DialogViewType::Days => d,
        DialogViewType::Months => CalendarDate { year: d.year, month: d.month, day: 1 },
        DialogViewType::Years => CalendarDate { year: d.year, month: 1, day: 1 },
    }
}

/// Whether a cell at zoom level `g` holding `d` is forbidden: the
/// matching-granularity constraint predicate.
pub open spec fn cell_forbidden_spec(c: DateConstraints, d: CalendarDate, g: DialogViewType) -> bool {
    match g {
        DialogViewType::Days => day_forbidden(c, d),
        DialogViewType::Months => month_forbidden(c, d.year as int, d.month as int),
        DialogViewType::Years => year_forbidden(c, d.year as int),
    }
}

/// Index of a month on the endless month axis.
pub open spec fn month_index(y: int, m: int) -> int {
    y * 12 + (m - 1)
}

/// What a date-cell click at zoom level `cell_view` does to a dialog:
/// the full relation between the state before (`pre`), the state after
/// (`post`) and the outcome `r`. A forbidden cell changes nothing.
/// Otherwise the cell's date, normalized to the zoom level's coarseness,
/// commits at once in date mode; in combined mode with a complete time
/// the combined instant is re-checked and committed unless forbidden,
/// and with an incomplete time it is recorded, moving the focus, while
/// the dialog stays open.
pub open spec fn date_click_transition(
    pre: SelectionState,
    post: SelectionState,
    r: ExitOutcome,
    cell: CalendarDate,
    cell_view: DialogViewType,
) -> bool {
    &&& post.mode == pre.mode
    &&& post.config == pre.config
    &&& if cell_forbidden_spec(pre.config.constraints, cell, cell_view) {
        post == pre && r == ExitOutcome::StayOpen
    } else {
        let nd = normalize_spec(cell, cell_view);
        if pre.mode == Picker::Date {
            post == pre && (r matches ExitOutcome::CloseWrite(s) && s@ == iso_date_seq(nd))
        } else if pre.selected_hour is Some && pre.selected_minute is Some {
            let cand = CalendarInstant {
                date: nd,
                time: ClockTime {
                    hour: pre.selected_hour->0,
                    minute: pre.selected_minute->0,
                },
            };
            if instant_forbidden(pre.config.constraints, cand) {
                post == pre && r == ExitOutcome::StayOpen
            } else {
                post == pre && (r matches ExitOutcome::CloseWrite(s) && s@ == iso_datetime_seq(
                    cand,
                ))
            }
        } else {
            &&& post.selected_date == Some(nd)
            &&& post.selected_hour == pre.selected_hour
            &&& post.selected_minute == pre.selected_minute
            &&& post.cursor.granularity == pre.cursor.granularity
            &&& post.cursor.focus == (CalendarInstant { date: nd, time: pre.cursor.focus.time })
            &&& r == ExitOutcome::StayOpen
        }
    }
}

/// The working state of one open dialog.
#[derive(Debug)]
pub struct SelectionState {
    /// Which values this dialog edits.
    pub mode: Picker,
    /// The configuration the dialog was created with.
    pub config: PickerConfig,
    /// The navigation state.
    pub cursor: ViewCursor,
    /// The date chosen so far, if any.
    pub selected_date: Option<CalendarDate>,
    /// The hour chosen so far, if any.
    pub selected_hour: Option<u8>,
    /// The minute chosen so far, if any.
    pub selected_minute: Option<u8>,
}

impl SelectionState {
    /// Internal consistency of a dialog state.
    pub open spec fn wf(&self) -> bool {
        &&& self.config.wf()
        &&& self.cursor.wf()
        &&& (match self.selected_date {
            Some(d) => date_valid(d),
            None => true,
        })
        &&& (match self.selected_hour {
            Some(h) => h < 24,
            None => true,
        })
        &&& (match self.selected_minute {
            Some(m) => m < 60,
            None => true,
        })
    }

    /// The dialog mode and configuration never change after opening.
    pub open spec fn same_dialog(&self, other: &SelectionState) -> bool {
        self.mode == other.mode && self.config == other.config
    }

    /// Whether an hour cell is unselectable: with the focused date,
    /// every minute of the hour is out of range.
    pub open spec fn hour_forbidden_spec(&self, h: u8) -> bool {
        forall|m: u8|
            m < 60 ==> #[trigger] instant_forbidden(
                self.config.constraints,
                CalendarInstant {
                    date: self.cursor.focus.date,
                    time: ClockTime { hour: h, minute: m },
                },
            )
    }

    /// Whether a minute cell is unselectable: with the focused date and
    /// hour, the minute is out of range.
    pub open spec fn minute_forbidden_spec(&self, m: u8) -> bool {
        instant_forbidden(
            self.config.constraints,
            CalendarInstant {
                date: self.cursor.focus.date,
                time: ClockTime { hour: self.cursor.focus.time.hour, minute: m },
            },
        )
    }

    /// Whether an hour cell is rendered unselectable and ignored on
    /// click: every one of its minutes, with the focused date, lies out
    /// of range.
    pub fn is_hour_forbidden(&self, h: u8) -> (r: bool)
        requires
            h < 24,
        ensures
            r == self.hour_forbidden_spec(h),
    {
        let mut m: u8 = 0;
        while m < 60
            invariant
                m <= 60,
                forall|m0: u8|
                    m0 < m ==> #[trigger] instant_forbidden(
                        self.config.constraints,
                        CalendarInstant {
                            date: self.cursor.focus.date,
                            time: ClockTime { hour: h, minute: m0 },
                        },
                    ),
            decreases 60 - m,
        {
            let cand = CalendarInstant {
                date: self.cursor.focus.date,
                time: ClockTime { hour: h, minute: m },
            };
            if !is_instant_forbidden(&self.config.constraints, &cand) {
                proof {
                    assert(!instant_forbidden(self.config.constraints, cand));
                    assert(!self.hour_forbidden_spec(h));
                }
                return false;
            }
            m += 1;
        }
        true
    }

    /// Whether a minute cell is rendered unselectable and ignored on
    /// click.
    pub fn is_minute_forbidden(&self, m: u8) -> (r: bool)
        requires
            m < 60,
        ensures
            r == self.minute_forbidden_spec(m),
    {
        let cand = CalendarInstant {
            date: self.cursor.focus.date,
            time: ClockTime { hour: self.cursor.focus.time.hour, minute: m },
        };
        is_instant_forbidden(&self.config.constraints, &cand)
    }

    /// A click on a date cell of the grid at zoom level `cell_view`.
    ///
    /// A forbidden cell is ignored. Otherwise the date, normalized to
    /// the zoom level's coarseness, is recorded. A date-only dialog
    /// commits and closes at once. A combined dialog with a complete
    /// time re-checks the combined instant and commits it unless it is
    /// forbidden; with an incomplete time it keeps the date and stays
    /// open, moving the focus to the chosen date.
    pub fn click_date(&mut self, cell: &CalendarDate, cell_view: DialogViewType) -> (r: ExitOutcome)
        requires
            old(self).wf(),
            date_valid(*cell),
            old(self).mode != Picker::Time,
        ensures
            final(self).wf(),
            old(self).same_dialog(final(self)),
            date_click_transition(*old(self), *final(self), r, *cell, cell_view),
    {
        let c = &self.config.constraints;
        let forbidden: bool = match cell_view {
            DialogViewType::Days => is_day_forbidden(c, cell),
            DialogViewType::Months => is_month_forbidden(c, cell.year, cell.month),
            DialogViewType::Years => is_year_forbidden(c, cell.year),
        };
        if forbidden {
            return ExitOutcome::StayOpen;
        }
        let nd: CalendarDate = match cell_view {
            DialogViewType::Days => *cell,
            DialogViewType::Months => CalendarDate { year: cell.year, month: cell.month, day: 1 },
            DialogViewType::Years => CalendarDate { year: cell.year, month: 1, day: 1 },
        };
        match self.mode {
            Picker::Date => ExitOutcome::CloseWrite(nd.js_string()),
            _ => {
                match (self.selected_hour, self.selected_minute) {
                    (Some(h), Some(m)) => {
                        let cand = CalendarInstant { date: nd, time: ClockTime { hour: h, minute: m } };
                        if is_instant_forbidden(&self.config.constraints, &cand) {
                            ExitOutcome::StayOpen
                        } else {
                            ExitOutcome::CloseWrite(cand.js_string())
                        }
                    },
                    _ => {
                        self.selected_date = Some(nd);
                        self.cursor.focus = CalendarInstant { date: nd, time: self.cursor.focus.time };
                        ExitOutcome::StayOpen
                    },
                }
            },
        }
    }

    /// A click on a year cell: when the dialog selects whole years it
    /// acts as a date click at years coarseness (a forbidden year is
    /// ignored, an allowed one commits or is recorded as January 1st);
    /// otherwise it zooms in to the months grid.
    pub fn click_year_cell(&mut self, cell: &CalendarDate) -> (r: ExitOutcome)
        requires
            old(self).wf(),
            date_valid(*cell),
            old(self).mode != Picker::Time,
        ensures
            final(self).wf(),
            old(self).same_dialog(final(self)),
            old(self).config.selection_granularity == DialogViewType::Years
                ==> date_click_transition(
                *old(self),
                *final(self),
                r,
                *cell,
                DialogViewType::Years,
            ),
            old(self).config.selection_granularity != DialogViewType::Years ==> final(self).cursor
                == (ViewCursor {
                granularity: DialogViewType::Months,
                focus: old(self).cursor.focus,
            }) && final(self).selected_date == old(self).selected_date && final(self).selected_hour
                == old(self).selected_hour && final(self).selected_minute == old(
                self,
            ).selected_minute && r == ExitOutcome::StayOpen,
    {
        if matches!(self.config.selection_granularity, DialogViewType::Years) {
            self.click_date(cell, DialogViewType::Years)
        } else {
            self.cursor.granularity = DialogViewType::Months;
            ExitOutcome::StayOpen
        }
    }

    /// A click on a month cell: when the dialog selects whole months it
    /// acts as a date click at months coarseness (a forbidden month is
    /// ignored, an allowed one commits or is recorded as its first day);
    /// otherwise it zooms in to the days grid.
    pub fn click_month_cell(&mut self, cell: &CalendarDate) -> (r: ExitOutcome)
        requires
            old(self).wf(),
            date_valid(*cell),
            old(self).mode != Picker::Time,
        ensures
            final(self).wf(),
            old(self).same_dialog(final(self)),
            old(self).config.selection_granularity == DialogViewType::Months
                ==> date_click_transition(
                *old(self),
                *final(self),
                r,
                *cell,
                DialogViewType::Months,
            ),
            old(self).config.selection_granularity != DialogViewType::Months ==> final(self).cursor
                == (ViewCursor {
                granularity: DialogViewType::Days,
                focus: old(self).cursor.focus,
            }) && final(self).selected_date == old(self).selected_date && final(self).selected_hour
                == old(self).selected_hour && final(self).selected_minute == old(
                self,
            ).selected_minute && r == ExitOutcome::StayOpen,
    {
        if matches!(self.config.selection_granularity, DialogViewType::Months) {
            self.click_date(cell, DialogViewType::Months)
        } else {
            self.cursor.granularity = DialogViewType::Days;
            ExitOutcome::StayOpen
        }
    }

    /// A click on an hour cell. A forbidden cell is ignored. When the
    /// minute is already chosen, the pair completes: a time-only dialog
    /// commits the time, a combined dialog with a chosen date commits
    /// the full instant, and a combined dialog without a date keeps the
    /// hour and stays open. Without a chosen minute the hour is
    /// recorded, and a combined dialog adopts the focused date as its
    /// selection.
    pub fn click_hour(&mut self, h: u8) -> (r: ExitOutcome)
        requires
            old(self).wf(),
            h < 24,
            old(self).mode != Picker::Date,
        ensures
            final(self).wf(),
            old(self).same_dialog(final(self)),
            old(self).hour_forbidden_spec(h) ==> *final(self) == *old(self) && r
                == ExitOutcome::StayOpen,
            !old(self).hour_forbidden_spec(h) ==> match old(self).selected_minute {
                Some(m) => {
                    if old(self).mode == Picker::Time {
                        *final(self) == *old(self) && (r matches ExitOutcome::CloseWrite(s) && s@
                            == iso_time_seq(ClockTime { hour: h, minute: m }))
                    } else if old(self).selected_date is Some {
                        *final(self) == *old(self) && (r matches ExitOutcome::CloseWrite(s) && s@
                            == iso_datetime_seq(
                            CalendarInstant {
                                date: old(self).selected_date->0,
                                time: ClockTime { hour: h, minute: m },
                            },
                        ))
                    } else {
                        final(self).selected_hour == Some(h) && final(self).selected_minute
                            == old(self).selected_minute && final(self).selected_date == old(
                            self,
                        ).selected_date && final(self).cursor.granularity == old(
                            self,
                        ).cursor.granularity && final(self).cursor.focus == CalendarInstant {
                            date: old(self).cursor.focus.date,
                            time: ClockTime { hour: h, minute: m },
                        } && r == ExitOutcome::StayOpen
                    }
                },
                None => {
                    final(self).selected_hour == Some(h) && final(self).selected_minute == old(
                        self,
                    ).selected_minute && final(self).cursor.granularity == old(
                        self,
                    ).cursor.granularity && final(self).cursor.focus == CalendarInstant {
                        date: old(self).cursor.focus.date,
                        time: ClockTime { hour: h, minute: old(self).cursor.focus.time.minute },
                    } && (if old(self).mode == Picker::DateTime {
                        final(self).selected_date == Some(old(self).cursor.focus.date)
                    } else {
                        final(self).selected_date == old(self).selected_date
                    }) && r == ExitOutcome::StayOpen
                },
            },
    {
        if self.is_hour_forbidden(h) {
            return ExitOutcome::StayOpen;
        }
        match self.selected_minute {
            Some(m) => {
                match self.mode {
                    Picker::Time => {
                        let t = ClockTime { hour: h, minute: m };
                        ExitOutcome::CloseWrite(t.js_string())
                    },
                    _ => {
                        match self.selected_date {
                            Some(d) => {
                                let cand = CalendarInstant {
                                    date: d,
                                    time: ClockTime { hour: h, minute: m },
                                };
                                ExitOutcome::CloseWrite(cand.js_string())
                            },
                            None => {
                                self.selected_hour = Some(h);
                                self.cursor.focus = CalendarInstant {
                                    date: self.cursor.focus.date,
                                    time: ClockTime { hour: h, minute: m },
                                };
                                ExitOutcome::StayOpen
                            },
                        }
                    },
                }
            },
            None => {
                self.selected_hour = Some(h);
                self.cursor.focus = CalendarInstant {
                    date: self.cursor.focus.date,
                    time: ClockTime { hour: h, minute: self.cursor.focus.time.minute },
                };
                if matches!(self.mode, Picker::DateTime) {
                    self.selected_date = Some(self.cursor.focus.date);
                }
                ExitOutcome::StayOpen
            },
        }
    }

    /// A click on a minute cell, symmetric to an hour click.
    pub fn click_minute(&mut self, m: u8) -> (r: ExitOutcome)
        requires
            old(self).wf(),
            m < 60,
            old(self).mode != Picker::Date,
        ensures
            final(self).wf(),
            old(self).same_dialog(final(self)),
            old(self).minute_forbidden_spec(m) ==> *final(self) == *old(self) && r
                == ExitOutcome::StayOpen,
            !old(self).minute_forbidden_spec(m) ==> match old(self).selected_hour {
                Some(h) => {
                    if old(self).mode == Picker::Time {
                        *final(self) == *old(self) && (r matches ExitOutcome::CloseWrite(s) && s@
                            == iso_time_seq(ClockTime { hour: h, minute: m }))
                    } else if old(self).selected_date is Some {
                        *final(self) == *old(self) && (r matches ExitOutcome::CloseWrite(s) && s@
                            == iso_datetime_seq(
                            CalendarInstant {
                                date: old(self).selected_date->0,
                                time: ClockTime { hour: h, minute: m },
                            },
                        ))
                    } else {
                        final(self).selected_minute == Some(m) && final(self).selected_hour == old(
                            self,
                        ).selected_hour && final(self).selected_date == old(self).selected_date
                            && final(self).cursor.granularity == old(self).cursor.granularity
                            && final(self).cursor.focus == CalendarInstant {
                            date: old(self).cursor.focus.date,
                            time: ClockTime { hour: h, minute: m },
                        } && r == ExitOutcome::StayOpen
                    }
                },
                None => {
                    final(self).selected_minute == Some(m) && final(self).selected_hour == old(
                        self,
                    ).selected_hour && final(self).cursor.granularity == old(
                        self,
                    ).cursor.granularity && final(self).cursor.focus == CalendarInstant {
                        date: old(self).cursor.focus.date,
                        time: ClockTime { hour: old(self).cursor.focus.time.hour, minute: m },
                    } && (if old(self).mode == Picker::DateTime {
                        final(self).selected_date == Some(old(self).cursor.focus.date)
                    } else {
                        final(self).selected_date == old(self).selected_date
                    }) && r == ExitOutcome::StayOpen
                },
            },
    {
        if self.is_minute_forbidden(m) {
            return ExitOutcome::StayOpen;
        }
        match self.selected_hour {
            Some(h) => {
                match self.mode {
                    Picker::Time => {
                        let t = ClockTime { hour: h, minute: m };
                        ExitOutcome::CloseWrite(t.js_string())
                    },
                    _ => {
                        match self.selected_date {
                            Some(d) => {
                                let cand = CalendarInstant {
                                    date: d,
                                    time: ClockTime { hour: h, minute: m },
                                };
                                ExitOutcome::CloseWrite(cand.js_string())
                            },
                            None => {
                                self.selected_minute = Some(m);
                                self.cursor.focus = CalendarInstant {
                                    date: self.cursor.focus.date,
                                    time: ClockTime { hour: h, minute: m },
                                };
                                ExitOutcome::StayOpen
                            },
                        }
                    },
                }
            },
            None => {
                self.selected_minute = Some(m);
                self.cursor.focus = CalendarInstant {
                    date: self.cursor.focus.date,
                    time: ClockTime { hour: self.cursor.focus.time.hour, minute: m },
                };
                if matches!(self.mode, Picker::DateTime) {
                    self.selected_date = Some(self.cursor.focus.date);
                }
                ExitOutcome::StayOpen
            },
        }
    }

    /// The clear button: the dialog closes and the host field is
    /// emptied.
    pub fn click_clear(&mut self) -> (r: ExitOutcome)
        requires
            old(self).wf(),
        ensures
            *final(self) == *old(self),
            r matches ExitOutcome::CloseWrite(s) && s@ == Seq::<char>::empty(),
    {
        ExitOutcome::CloseWrite(String::new())
    }

    /// Closing the dialog (close icon, backdrop click): commits the
    /// canonical string of a complete selection; an incomplete one
    /// commits nothing and the host field keeps its value.
    pub fn exit(&self) -> (r: ExitOutcome)
        requires
            self.wf(),
        ensures
            match self.mode {
                Picker::Date => match self.selected_date {
                    Some(d) => r matches ExitOutcome::CloseWrite(s) && s@ == iso_date_seq(d),
                    None => r == ExitOutcome::CloseKeep,
                },
                Picker::Time => {
                    if self.selected_hour is Some && self.selected_minute is Some {
                        r matches ExitOutcome::CloseWrite(s) && s@ == iso_time_seq(
                            ClockTime {
                                hour: self.selected_hour->0,
                                minute: self.selected_minute->0,
                            },
                        )
                    } else {
                        r == ExitOutcome::CloseKeep
                    }
                },
                Picker::DateTime => {
                    if self.selected_date is Some && self.selected_hour is Some
                        && self.selected_minute is Some {
                        r matches ExitOutcome::CloseWrite(s) && s@ == iso_datetime_seq(
                            CalendarInstant {
                                date: self.selected_date->0,
                                time: ClockTime {
                                    hour: self.selected_hour->0,
                                    minute: self.selected_minute->0,
                                },
                            },
                        )
                    } else {
                        r == ExitOutcome::CloseKeep
                    }
                },
            },
            // commit atomicity: a combined dialog without a full time
            // never writes
            self.mode == Picker::DateTime && (self.selected_hour is None
                || self.selected_minute is None) ==> r == ExitOutcome::CloseKeep,
    {
        match self.mode {
            Picker::Date => {
                match self.selected_date {
                    Some(d) => ExitOutcome::CloseWrite(d.js_string()),
                    None => ExitOutcome::CloseKeep,
                }
            },
            Picker::Time => {
                match (self.selected_hour, self.selected_minute) {
                    (Some(h), Some(m)) => {
                        let t = ClockTime { hour: h, minute: m };
                        ExitOutcome::CloseWrite(t.js_string())
                    },
                    _ => ExitOutcome::CloseKeep,
                }
            },
            Picker::DateTime => {
                match (self.selected_date, self.selected_hour, self.selected_minute) {
                    (Some(d), Some(h), Some(m)) => {
                        let cand = CalendarInstant { date: d, time: ClockTime { hour: h, minute: m } };
                        ExitOutcome::CloseWrite(cand.js_string())
                    },
                    _ => ExitOutcome::CloseKeep,
                }
            },
        }
    }
}

/// The first month at or after `(y0, m0)` with a selectable day, walking
/// the month axis in order; the walk stops at the calendar's last month.
pub fn first_allowed_month(c: &DateConstraints, y0: i32, m0: u8) -> (r: (i32, u8))
    requires
        1 <= y0 <= 9999,
        1 <= m0 <= 12,
    ensures
        1 <= r.0 <= 9999,
        1 <= r.1 <= 12,
        month_index(r.0 as int, r.1 as int) >= month_index(y0 as int, m0 as int),
        !month_forbidden(*c, r.0 as int, r.1 as int) || (r.0 == 9999 && r.1 == 12),
        forall|j: int|
            month_index(y0 as int, m0 as int) <= j < month_index(r.0 as int, r.1 as int)
                ==> #[trigger] month_forbidden(*c, j / 12, j % 12 + 1),
{
    let mut y: i32 = y0;
    let mut m: u8 = m0;
    while !(y == 9999 && m == 12) && is_month_forbidden(c, y, m)
        invariant
            1 <= y <= 9999,
            1 <= m <= 12,
            1 <= y0 <= 9999,
            1 <= m0 <= 12,
            month_index(y as int, m as int) >= month_index(y0 as int, m0 as int),
            forall|j: int|
                month_index(y0 as int, m0 as int) <= j < month_index(y as int, m as int)
                    ==> #[trigger] month_forbidden(*c, j / 12, j % 12 + 1),
        decreases month_index(9999, 12) - month_index(y as int, m as int),
    {
        proof {
            let j = month_index(y as int, m as int);
            assert(j / 12 == y && j % 12 + 1 == m) by (nonlinear_arith)
                requires
                    j == y * 12 + (m - 1),
                    1 <= m <= 12,
                    1 <= y,
            ;
        }
        if m < 12 {
            m += 1;
        } else {
            m = 1;
            y += 1;
        }
    }
    (y, m)
}

impl SelectionState {
    /// The focus a dialog opens at: the initial value when one is set
    /// and selectable, else the first selectable month at or after "now"
    /// (starting from the lower bound instead when "now" lies before
    /// it), the date then normalized to the selection granularity's
    /// coarseness.
    pub fn initial_focus(config: &PickerConfig, now: &CalendarInstant) -> (r: CalendarInstant)
        requires
            config.wf(),
            instant_valid(*now),
        ensures
            instant_valid(r),
            (match config.initial_value {
                Some(v) => !day_forbidden(config.constraints, v.date),
                None => false,
            }) ==> r == (CalendarInstant {
                date: normalize_spec(config.initial_value->0.date, config.selection_granularity),
                time: config.initial_value->0.time,
            }),
            !(match config.initial_value {
                Some(v) => !day_forbidden(config.constraints, v.date),
                None => false,
            }) ==> {
                let start = (match config.constraints.min_datetime {
                    Some(mi) => if crate::calendar::instant_before(*now, mi) {
                        mi
                    } else {
                        *now
                    },
                    None => *now,
                });
                r.time == start.time && exists|fy: int, fm: int|
                    {
                        &&& 1 <= fy <= 9999
                        &&& 1 <= fm <= 12
                        &&& #[trigger] month_index(fy, fm) >= month_index(
                            start.date.year as int,
                            start.date.month as int,
                        )
                        &&& (!month_forbidden(config.constraints, fy, fm) || (fy == 9999 && fm
                            == 12))
                        &&& (forall|j: int|
                            month_index(start.date.year as int, start.date.month as int) <= j
                                < month_index(fy, fm) ==> #[trigger] month_forbidden(
                                config.constraints,
                                j / 12,
                                j % 12 + 1,
                            ))
                        &&& r.date == normalize_spec(
                            if fy == start.date.year as int && fm == start.date.month as int {
                                start.date
                            } else {
                                CalendarDate { year: fy as i32, month: fm as u8, day: 1 }
                            },
                            config.selection_granularity,
                        )
                    }
            },
    {
        match &config.initial_value {
            Some(v) => {
                if !is_day_forbidden(&config.constraints, &v.date) {
                    let nd: CalendarDate = match config.selection_granularity {
                        DialogViewType::Days => v.date,
                        DialogViewType::Months => CalendarDate {
                            year: v.date.year,
                            month: v.date.month,
                            day: 1,
                        },
                        DialogViewType::Years => CalendarDate {
                            year: v.date.year,
                            month: 1,
                            day: 1,
                        },
                    };
                    return CalendarInstant { date: nd, time: v.time };
                }
            },
            None => {},
        }
        let start: CalendarInstant = match &config.constraints.min_datetime {
            Some(mi) => {
                if crate::calendar::instant_is_before(now, mi) {
                    *mi
                } else {
                    *now
                }
            },
            None => *now,
        };
        let (fy, fm) = first_allowed_month(&config.constraints, start.date.year, start.date.month);
        let date0: CalendarDate = if fy == start.date.year && fm == start.date.month {
            start.date
        } else {
            CalendarDate { year: fy, month: fm, day: 1 }
        };
        let nd: CalendarDate = match config.selection_granularity {
            DialogViewType::Days => date0,
            DialogViewType::Months => CalendarDate { year: date0.year, month: date0.month, day: 1 },
            DialogViewType::Years => CalendarDate { year: date0.year, month: 1, day: 1 },
        };
        proof {
            assert(nd == normalize_spec(date0, config.selection_granularity));
        }
        CalendarInstant { date: nd, time: start.time }
    }

    /// Opens a dialog: the zoom level comes from the configuration, the
    /// in-progress selection is seeded from the host field's canonical
    /// text, falling back to the configured initial value, and the focus
    /// is chosen by `initial_focus`.
    pub fn open(mode: Picker, config: PickerConfig, host_text: &str, now: &CalendarInstant) -> (r:
        SelectionState)
        requires
            config.wf(),
            instant_valid(*now),
        ensures
            r.wf(),
            r.mode == mode,
            r.config == config,
            r.cursor.granularity == config.initial_granularity,
            (match config.initial_value {
                Some(v) => !day_forbidden(config.constraints, v.date),
                None => false,
            }) ==> r.cursor.focus == (CalendarInstant {
                date: normalize_spec(config.initial_value->0.date, config.selection_granularity),
                time: config.initial_value->0.time,
            }),
            mode == Picker::DateTime ==> {
                let eff = if parse_iso_datetime_seq(host_text@) is Some {
                    parse_iso_datetime_seq(host_text@)
                } else {
                    config.initial_value
                };
                match eff {
                    Some(i) => r.selected_date == Some(i.date) && r.selected_hour == Some(
                        i.time.hour,
                    ) && r.selected_minute == Some(i.time.minute),
                    None => r.selected_date is None && r.selected_hour is None
                        && r.selected_minute is None,
                }
            },
            mode == Picker::Date ==> {
                let eff = if parse_iso_date_seq(host_text@) is Some {
                    parse_iso_date_seq(host_text@)
                } else {
                    match config.initial_value {
                        Some(i) => Some(i.date),
                        None => None,
                    }
                };
                r.selected_date == eff && r.selected_hour is None && r.selected_minute is None
            },
            mode == Picker::Time ==> {
                let eff = if parse_iso_time_seq(host_text@) is Some {
                    parse_iso_time_seq(host_text@)
                } else {
                    match config.initial_value {
                        Some(i) => Some(i.time),
                        None => None,
                    }
                };
                (match eff {
                    Some(t) => r.selected_hour == Some(t.hour) && r.selected_minute == Some(
                        t.minute,
                    ),
                    None => r.selected_hour is None && r.selected_minute is None,
                }) && r.selected_date is None
            },
    {
        let focus = Self::initial_focus(&config, now);
        let granularity = config.initial_granularity;
        let mut state = SelectionState {
            mode,
            config,
            cursor: ViewCursor { granularity, focus },
            selected_date: None,
            selected_hour: None,
            selected_minute: None,
        };
        state.resync(host_text);
        state
    }

    /// Re-reads the host field's canonical text into the in-progress
    /// selection, falling back to the configured initial value. A dialog
    /// calls this when the field changes under it, so selection always
    /// acts on the latest externally visible value.
    pub fn resync(&mut self, host_text: &str)
        requires
            old(self).wf(),
        ensures
            final(self).wf(),
            old(self).same_dialog(final(self)),
            final(self).cursor == old(self).cursor,
            old(self).mode == Picker::DateTime ==> {
                let eff = if parse_iso_datetime_seq(host_text@) is Some {
                    parse_iso_datetime_seq(host_text@)
                } else {
                    old(self).config.initial_value
                };
                match eff {
                    Some(i) => final(self).selected_date == Some(i.date) && final(self).selected_hour == Some(i.time.hour) && final(self).selected_minute == Some(
                        i.time.minute,
                    ),
                    None => final(self).selected_date is None && final(self).selected_hour is None
                        && final(self).selected_minute is None,
                }
            },
            old(self).mode == Picker::Date ==> {
                let eff = if parse_iso_date_seq(host_text@) is Some {
                    parse_iso_date_seq(host_text@)
                } else {
                    match old(self).config.initial_value {
                        Some(i) => Some(i.date),
                        None => None,
                    }
                };
                final(self).selected_date == eff && final(self).selected_hour is None && final(self).selected_minute is None
            },
            old(self).mode == Picker::Time ==> {
                let eff = if parse_iso_time_seq(host_text@) is Some {
                    parse_iso_time_seq(host_text@)
                } else {
                    match old(self).config.initial_value {
                        Some(i) => Some(i.time),
                        None => None,
                    }
                };
                (match eff {
                    Some(t) => final(self).selected_hour == Some(t.hour) && final(self).selected_minute == Some(t.minute),
                    None => final(self).selected_hour is None && final(self).selected_minute is None,
                }) && final(self).selected_date is None
            },
    {
        self.selected_date = None;
        self.selected_hour = None;
        self.selected_minute = None;
        match self.mode {
            Picker::DateTime => {
                let parsed = datetime_8601(host_text);
                let eff = match parsed {
                    Some(i) => Some(i),
                    None => self.config.initial_value,
                };
                match eff {
                    Some(i) => {
                        self.selected_date = Some(i.date);
                        self.selected_hour = Some(i.time.hour);
                        self.selected_minute = Some(i.time.minute);
                    },
                    None => {},
                }
            },
            Picker::Date => {
                let parsed = date_8601(host_text);
                let eff = match parsed {
                    Some(d) => Some(d),
                    None => match &self.config.initial_value {
                        Some(i) => Some(i.date),
                        None => None,
                    },
                };
                self.selected_date = eff;
            },
            Picker::Time => {
                let parsed = time_8601(host_text);
                let eff = match parsed {
                    Some(t) => Some(t),
                    None => match &self.config.initial_value {
                        Some(i) => Some(i.time),
                        None => None,
                    },
                };
                match eff {
                    Some(t) => {
                        self.selected_hour = Some(t.hour);
                        self.selected_minute = Some(t.minute);
                    },
                    None => {},
                }
            },
        }
    }

    /// The Today button of the date panel. It is suppressed (a no-op)
    /// when the value it would produce is forbidden. In date mode it
    /// commits today's date; in combined mode with a complete time it
    /// commits today's date with that time, and otherwise it seeds the
    /// selection with "now" and keeps the dialog open.
    pub fn click_today(&mut self, now: &CalendarInstant) -> (r: ExitOutcome)
        requires
            old(self).wf(),
            instant_valid(*now),
            old(self).mode != Picker::Time,
        ensures
            final(self).wf(),
            old(self).same_dialog(final(self)),
            old(self).mode == Picker::Date ==> {
                if day_forbidden(old(self).config.constraints, now.date) {
                    *final(self) == *old(self) && r == ExitOutcome::StayOpen
                } else {
                    *final(self) == *old(self) && (r matches ExitOutcome::CloseWrite(s) && s@
                        == iso_date_seq(now.date))
                }
            },
            old(self).mode == Picker::DateTime && old(self).selected_hour is Some && old(
                self,
            ).selected_minute is Some ==> {
                let cand = CalendarInstant {
                    date: now.date,
                    time: ClockTime {
                        hour: old(self).selected_hour->0,
                        minute: old(self).selected_minute->0,
                    },
                };
                if instant_forbidden(old(self).config.constraints, cand) {
                    *final(self) == *old(self) && r == ExitOutcome::StayOpen
                } else {
                    *final(self) == *old(self) && (r matches ExitOutcome::CloseWrite(s) && s@
                        == iso_datetime_seq(cand))
                }
            },
            old(self).mode == Picker::DateTime && (old(self).selected_hour is None || old(
                self,
            ).selected_minute is None) ==> {
                if instant_forbidden(old(self).config.constraints, *now) {
                    *final(self) == *old(self) && r == ExitOutcome::StayOpen
                } else {
                    final(self).selected_date == Some(now.date) && final(self).selected_hour
                        == old(self).selected_hour && final(self).selected_minute == old(
                        self,
                    ).selected_minute && final(self).cursor.granularity == old(
                        self,
                    ).cursor.granularity && final(self).cursor.focus == *now && r
                        == ExitOutcome::StayOpen
                }
            },
    {
        match self.mode {
            Picker::Date => {
                if is_day_forbidden(&self.config.constraints, &now.date) {
                    ExitOutcome::StayOpen
                } else {
                    ExitOutcome::CloseWrite(now.date.js_string())
                }
            },
            _ => {
                match (self.selected_hour, self.selected_minute) {
                    (Some(h), Some(m)) => {
                        let cand = CalendarInstant {
                            date: now.date,
                            time: ClockTime { hour: h, minute: m },
                        };
                        if is_instant_forbidden(&self.config.constraints, &cand) {
                            ExitOutcome::StayOpen
                        } else {
                            ExitOutcome::CloseWrite(cand.js_string())
                        }
                    },
                    _ => {
                        if is_instant_forbidden(&self.config.constraints, now) {
                            ExitOutcome::StayOpen
                        } else {
                            self.selected_date = Some(now.date);
                            self.cursor.focus = *now;
                            ExitOutcome::StayOpen
                        }
                    },
                }
            },
        }
    }

    /// The Now button of the time panel. In combined mode with a chosen
    /// date it commits that date with the current time, suppressed when
    /// forbidden; without a date it seeds the hour and minute with
    /// "now". In time-only mode it commits the current time, except that
    /// when the current time is already selected it clears the host
    /// field instead.
    pub fn click_now(&mut self, now: &CalendarInstant) -> (r: ExitOutcome)
        requires
            old(self).wf(),
            instant_valid(*now),
            old(self).mode != Picker::Date,
        ensures
            final(self).wf(),
            old(self).same_dialog(final(self)),
            old(self).mode == Picker::DateTime ==> match old(self).selected_date {
                Some(d) => {
                    let cand = CalendarInstant { date: d, time: now.time };
                    if instant_forbidden(old(self).config.constraints, cand) {
                        *final(self) == *old(self) && r == ExitOutcome::StayOpen
                    } else {
                        *final(self) == *old(self) && (r matches ExitOutcome::CloseWrite(s) && s@
                            == iso_datetime_seq(cand))
                    }
                },
                None => final(self).selected_hour == Some(now.time.hour) && final(self).selected_minute == Some(now.time.minute) && final(self).selected_date == old(
                    self,
                ).selected_date && final(self).cursor == old(self).cursor && r
                    == ExitOutcome::StayOpen,
            },
            old(self).mode == Picker::Time ==> {
                if old(self).selected_hour == Some(now.time.hour) && old(self).selected_minute
                    == Some(now.time.minute) {
                    *final(self) == *old(self) && (r matches ExitOutcome::CloseWrite(s) && s@
                        == Seq::<char>::empty())
                } else {
                    *final(self) == *old(self) && (r matches ExitOutcome::CloseWrite(s) && s@
                        == iso_time_seq(now.time))
                }
            },
    {
        match self.mode {
            Picker::Time => {
                let same: bool = match (self.selected_hour, self.selected_minute) {
                    (Some(h), Some(m)) => h == now.time.hour && m == now.time.minute,
                    _ => false,
                };
                if same {
                    ExitOutcome::CloseWrite(String::new())
                } else {
                    ExitOutcome::CloseWrite(now.time.js_string())
                }
            },
            _ => {
                match self.selected_date {
                    Some(d) => {
                        let cand = CalendarInstant { date: d, time: now.time };
                        if is_instant_forbidden(&self.config.constraints, &cand) {
                            ExitOutcome::StayOpen
                        } else {
                            ExitOutcome::CloseWrite(cand.js_string())
                        }
                    },
                    None => {
                        self.selected_hour = Some(now.time.hour);
                        self.selected_minute = Some(now.time.minute);
                        ExitOutcome::StayOpen
                    },
                }
            },
        }
    }
}

/// What typing into the host field's input box commits: the text is
/// parsed with the permissive display grammar against "now", validated
/// against the constraints (a date read from the paired time or date
/// field stands in for the missing half), and turned into canonical
/// text; anything unparseable or forbidden clears the field instead.
pub fn input_changed(
    mode: Picker,
    text: &str,
    paired_text: Option<&str>,
    cfg: Option<&DateConstraints>,
    now: &CalendarInstant,
) -> (r: String)
    requires
        instant_valid(*now),
    ensures
        mode == Picker::DateTime ==> r@ == (match crate::parse::parse_datetime_seq(
            text@,
            now.date.year as int,
        ) {
            Some(i) => {
                if (match cfg {
                    Some(c) => instant_forbidden(*c, i),
                    None => false,
                }) {
                    Seq::<char>::empty()
                } else {
                    iso_datetime_seq(i)
                }
            },
            None => Seq::<char>::empty(),
        }),
        mode == Picker::Date ==> r@ == (match crate::parse::parse_date_seq(
            text@,
            now.date.year as int,
        ) {
            Some(dd) => {
                if (match cfg {
                    Some(c) => day_forbidden(*c, dd),
                    None => false,
                }) {
                    Seq::<char>::empty()
                } else {
                    iso_date_seq(dd)
                }
            },
            None => Seq::<char>::empty(),
        }),
        mode == Picker::Time ==> r@ == (match crate::parse::parse_time_seq(text@) {
            Some(tt) => {
                let pd = (match paired_text {
                    Some(p) => (match parse_iso_date_seq(p@) {
                        Some(x) => x,
                        None => now.date,
                    }),
                    None => now.date,
                });
                if (match cfg {
                    Some(c) => day_forbidden(*c, pd),
                    None => false,
                }) {
                    Seq::<char>::empty()
                } else {
                    iso_time_seq(tt)
                }
            },
            None => Seq::<char>::empty(),
        }),
{
    match mode {
        Picker::DateTime => {
            match crate::parse::datetime_from_pat_at(text, now.date.year) {
                Some(i) => {
                    let bad: bool = match cfg {
                        Some(c) => is_instant_forbidden(c, &i),
                        None => false,
                    };
                    if bad {
                        String::new()
                    } else {
                        i.js_string()
                    }
                },
                None => String::new(),
            }
        },
        Picker::Date => {
            match crate::parse::date_from_pat_at(text, now.date.year) {
                Some(dd) => {
                    let bad: bool = match cfg {
                        Some(c) => is_day_forbidden(c, &dd),
                        None => false,
                    };
                    if bad {
                        String::new()
                    } else {
                        dd.js_string()
                    }
                },
                None => String::new(),
            }
        },
        Picker::Time => {
            match crate::parse::time_from_pat(text) {
                Some(tt) => {
                    let pd: CalendarDate = match paired_text {
                        Some(p) => {
                            match date_8601(p) {
                                Some(x) => x,
                                None => now.date,
                            }
                        },
                        None => now.date,
                    };
                    let bad: bool = match cfg {
                        Some(c) => is_day_forbidden(c, &pd),
                        None => false,
                    };
                    if bad {
                        String::new()
                    } else {
                        tt.js_string()
                    }
                },
                None => String::new(),
            }
        },
    }
}

} // verus!
