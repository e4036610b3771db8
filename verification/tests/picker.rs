use picker_core::create_dialog_title_text;
use picker_core::input_changed;
use picker_core::is_day_forbidden;
use picker_core::is_month_forbidden;
use picker_core::is_year_forbidden;
use picker_core::minutes_after_midnight;
use picker_core::month_grid;
use picker_core::now;
use picker_core::weekday_number;
use picker_core::weekday_thai;
use picker_core::year_group_end;
use picker_core::year_group_start;
use picker_core::CalendarDate;
use picker_core::CalendarInstant;
use picker_core::ClockTime;
use picker_core::DateConstraints;
use picker_core::DialogViewType;
use picker_core::ExitOutcome;
use picker_core::Picker;
use picker_core::PickerConfig;
use picker_core::SelectionState;
use picker_core::ViewCursor;

fn d(year: i32, month: u8, day: u8) -> CalendarDate {
    CalendarDate { year, month, day }
}

fn t(hour: u8, minute: u8) -> ClockTime {
    ClockTime { hour, minute }
}

fn dt(year: i32, month: u8, day: u8, hour: u8, minute: u8) -> CalendarInstant {
    CalendarInstant { date: d(year, month, day), time: t(hour, minute) }
}

fn free() -> DateConstraints {
    DateConstraints::unconstrained()
}

fn bounded(min: Option<CalendarInstant>, max: Option<CalendarInstant>) -> DateConstraints {
    DateConstraints {
        min_datetime: min,
        max_datetime: max,
        disabled_weekdays: Vec::new(),
        disabled_monthly_dates: Vec::new(),
    }
}

fn config_with(constraints: DateConstraints) -> PickerConfig {
    PickerConfig {
        constraints,
        selection_granularity: DialogViewType::Days,
        initial_granularity: DialogViewType::Days,
        initial_value: None,
    }
}

#[test]
fn test_day_forbidden_rules() {
    let c = bounded(Some(dt(2024, 1, 10, 0, 0)), Some(dt(2024, 2, 20, 23, 59)));
    assert!(is_day_forbidden(&c, &d(2024, 1, 9)));
    assert!(!is_day_forbidden(&c, &d(2024, 1, 10)));
    assert!(!is_day_forbidden(&c, &d(2024, 2, 20)));
    assert!(is_day_forbidden(&c, &d(2024, 2, 21)));

    // 2024-01-30 is a Tuesday (weekday 2, counting from Sunday)
    let tuesdays_off = DateConstraints {
        min_datetime: None,
        max_datetime: None,
        disabled_weekdays: vec![2],
        disabled_monthly_dates: Vec::new(),
    };
    assert!(is_day_forbidden(&tuesdays_off, &d(2024, 1, 30)));
    assert!(!is_day_forbidden(&tuesdays_off, &d(2024, 1, 31)));

    let thirteenth_off = DateConstraints {
        min_datetime: None,
        max_datetime: None,
        disabled_weekdays: Vec::new(),
        disabled_monthly_dates: vec![13],
    };
    assert!(is_day_forbidden(&thirteenth_off, &d(2024, 1, 13)));
    assert!(!is_day_forbidden(&thirteenth_off, &d(2024, 1, 14)));
}

#[test]
fn test_month_forbidden_when_every_day_is() {
    // everything selectable starts in February: all of January forbidden
    let c = bounded(Some(dt(2024, 2, 1, 0, 0)), None);
    assert!(is_month_forbidden(&c, 2024, 1));
    assert!(!is_month_forbidden(&c, 2024, 2));
}

#[test]
fn test_month_not_forbidden_with_one_selectable_day() {
    // only January 31st is selectable: the month stays selectable
    let c = bounded(Some(dt(2024, 1, 31, 0, 0)), None);
    assert!(!is_month_forbidden(&c, 2024, 1));
    assert!(is_month_forbidden(&c, 2023, 12));
    assert!(is_year_forbidden(&c, 2023));
    assert!(!is_year_forbidden(&c, 2024));
}

#[test]
fn test_navigation_boundary_hides_previous() {
    // minimum 2024-01-01, cursor on the days grid of January 2024
    let c = bounded(Some(dt(2024, 1, 1, 0, 0)), None);
    let cur = ViewCursor {
        granularity: DialogViewType::Days,
        focus: dt(2024, 1, 15, 0, 0),
    };
    assert!(!cur.prev_visible(&c));
    assert!(cur.next_visible(&c));

    // without the bound the previous month is selectable again
    assert!(cur.prev_visible(&free()));
}

#[test]
fn test_year_group_stepping_in_order() {
    assert_eq!(year_group_start(2024), 2016);
    assert_eq!(year_group_end(2024), 2031);
    let mut cur = ViewCursor {
        granularity: DialogViewType::Years,
        focus: dt(2024, 5, 10, 0, 0),
    };
    cur.step_next();
    assert_eq!(year_group_start(cur.focus.date.year), 2032);
    cur.step_next();
    assert_eq!(year_group_start(cur.focus.date.year), 2048);
    cur.step_prev();
    cur.step_prev();
    assert_eq!(year_group_start(cur.focus.date.year), 2016);
}

#[test]
fn test_step_months_across_year_edge() {
    let mut cur = ViewCursor {
        granularity: DialogViewType::Days,
        focus: dt(2024, 1, 15, 9, 30),
    };
    cur.step_prev();
    assert_eq!(cur.focus.date, d(2023, 12, 1));
    cur.step_next();
    assert_eq!(cur.focus.date, d(2024, 1, 1));
    assert_eq!(cur.focus.time, t(9, 30));
}

#[test]
fn test_zoom_out_chain() {
    let mut cur = ViewCursor {
        granularity: DialogViewType::Days,
        focus: dt(2024, 1, 15, 0, 0),
    };
    cur.zoom_out();
    assert_eq!(cur.granularity, DialogViewType::Months);
    cur.zoom_out();
    assert_eq!(cur.granularity, DialogViewType::Years);
    cur.zoom_out();
    assert_eq!(cur.granularity, DialogViewType::Years);
}

#[test]
fn test_dialog_title_text() {
    assert_eq!(
        create_dialog_title_text(&DialogViewType::Days, &d(1990, 1, 1)),
        String::from("มกราคม 2533")
    );
    assert_eq!(create_dialog_title_text(&DialogViewType::Months, &d(1990, 1, 1)), String::from("2533"));
    // Buddhist year 2533 lies in the sixteen-year group 2528..=2543
    assert_eq!(
        create_dialog_title_text(&DialogViewType::Years, &d(1990, 1, 1)),
        String::from("2528 - 2543")
    );
}

#[test]
fn test_commit_atomicity() {
    // a combined dialog with only a date chosen never writes on close
    let mut s = SelectionState::open(Picker::DateTime, config_with(free()), "", &dt(2024, 1, 15, 12, 0));
    assert_eq!(s.exit(), ExitOutcome::CloseKeep);
    let out = s.click_date(&d(2024, 1, 20), DialogViewType::Days);
    assert_eq!(out, ExitOutcome::StayOpen);
    assert_eq!(s.exit(), ExitOutcome::CloseKeep);
    // the hour alone is still not enough
    let out = s.click_hour(14);
    assert_eq!(out, ExitOutcome::StayOpen);
    assert_eq!(s.exit(), ExitOutcome::CloseKeep);
    // hour and minute complete the pair: the minute click commits
    let out = s.click_minute(55);
    assert_eq!(out, ExitOutcome::CloseWrite(String::from("2024-01-20T14:55")));
}

#[test]
fn test_date_only_commits_on_click() {
    let mut s = SelectionState::open(Picker::Date, config_with(free()), "", &dt(2024, 1, 15, 12, 0));
    let out = s.click_date(&d(2024, 1, 20), DialogViewType::Days);
    assert_eq!(out, ExitOutcome::CloseWrite(String::from("2024-01-20")));
}

#[test]
fn test_forbidden_cell_ignored() {
    let c = bounded(Some(dt(2024, 1, 10, 0, 0)), None);
    let mut s = SelectionState::open(Picker::Date, config_with(c), "", &dt(2024, 1, 15, 12, 0));
    let out = s.click_date(&d(2024, 1, 9), DialogViewType::Days);
    assert_eq!(out, ExitOutcome::StayOpen);
    assert_eq!(s.exit(), ExitOutcome::CloseKeep);
}

#[test]
fn test_time_only_commits_when_pair_complete() {
    let mut s = SelectionState::open(Picker::Time, config_with(free()), "", &dt(2024, 1, 15, 12, 0));
    assert_eq!(s.exit(), ExitOutcome::CloseKeep);
    assert_eq!(s.click_hour(14), ExitOutcome::StayOpen);
    assert_eq!(s.click_minute(55), ExitOutcome::CloseWrite(String::from("14:55")));
}

#[test]
fn test_clear_writes_empty() {
    let mut s = SelectionState::open(Picker::Date, config_with(free()), "2024-01-30", &dt(2024, 1, 15, 12, 0));
    assert_eq!(s.click_clear(), ExitOutcome::CloseWrite(String::new()));
}

#[test]
fn test_open_seeds_from_host_text() {
    let s = SelectionState::open(Picker::Date, config_with(free()), "2024-01-30", &dt(2024, 6, 15, 12, 0));
    assert_eq!(s.selected_date, Some(d(2024, 1, 30)));
    assert_eq!(s.selected_hour, None);

    let s = SelectionState::open(
        Picker::DateTime,
        config_with(free()),
        "2024-01-30T12:34",
        &dt(2024, 6, 15, 12, 0),
    );
    assert_eq!(s.selected_date, Some(d(2024, 1, 30)));
    assert_eq!(s.selected_hour, Some(12));
    assert_eq!(s.selected_minute, Some(34));

    let s = SelectionState::open(Picker::Time, config_with(free()), "09:05", &dt(2024, 6, 15, 12, 0));
    assert_eq!(s.selected_hour, Some(9));
    assert_eq!(s.selected_minute, Some(5));
    assert_eq!(s.selected_date, None);
}

#[test]
fn test_open_falls_back_to_initial_value() {
    let mut cfg = config_with(free());
    cfg.initial_value = Some(dt(2023, 3, 4, 5, 6));
    let s = SelectionState::open(Picker::DateTime, cfg, "not a date", &dt(2024, 6, 15, 12, 0));
    assert_eq!(s.selected_date, Some(d(2023, 3, 4)));
    assert_eq!(s.selected_hour, Some(5));
    assert_eq!(s.selected_minute, Some(6));
}

#[test]
fn test_open_skips_forbidden_months() {
    // everything before March 2024 is forbidden; the dialog opens on
    // March even though "now" is in January
    let c = bounded(Some(dt(2024, 3, 5, 0, 0)), None);
    let s = SelectionState::open(Picker::Date, config_with(c), "", &dt(2024, 1, 15, 12, 0));
    assert_eq!(s.cursor.focus.date.year, 2024);
    assert_eq!(s.cursor.focus.date.month, 3);
}

#[test]
fn test_today_suppressed_when_forbidden() {
    let past_only = bounded(None, Some(dt(2020, 1, 1, 0, 0)));
    let mut s = SelectionState::open(Picker::Date, config_with(past_only), "", &dt(2019, 6, 15, 12, 0));
    let today = dt(2024, 1, 30, 10, 0);
    assert_eq!(s.click_today(&today), ExitOutcome::StayOpen);

    let mut s = SelectionState::open(Picker::Date, config_with(free()), "", &dt(2024, 1, 15, 12, 0));
    assert_eq!(s.click_today(&today), ExitOutcome::CloseWrite(String::from("2024-01-30")));
}

#[test]
fn test_now_button_in_time_mode() {
    let mut s = SelectionState::open(Picker::Time, config_with(free()), "", &dt(2024, 1, 15, 12, 0));
    let current = dt(2024, 1, 30, 10, 40);
    assert_eq!(s.click_now(&current), ExitOutcome::CloseWrite(String::from("10:40")));

    // with the current time already selected, the button clears instead
    let mut s = SelectionState::open(Picker::Time, config_with(free()), "10:40", &dt(2024, 1, 15, 12, 0));
    assert_eq!(s.click_now(&current), ExitOutcome::CloseWrite(String::new()));
}

#[test]
fn test_hour_and_minute_cells_forbidden() {
    // nothing after 2024-01-30 10:00 is selectable
    let c = bounded(None, Some(dt(2024, 1, 30, 10, 0)));
    let mut cfg = config_with(c);
    cfg.initial_value = Some(dt(2024, 1, 30, 9, 0));
    let s = SelectionState::open(Picker::DateTime, cfg, "", &dt(2024, 1, 30, 9, 0));
    assert_eq!(s.cursor.focus.date, d(2024, 1, 30));
    assert!(!s.is_hour_forbidden(9));
    assert!(!s.is_hour_forbidden(10));
    assert!(s.is_hour_forbidden(11));
}

#[test]
fn test_zoom_in_on_year_and_month_cells() {
    let mut s = SelectionState::open(Picker::Date, config_with(free()), "", &dt(2024, 1, 15, 12, 0));
    let mut cur = s.cursor;
    cur.zoom_out();
    cur.zoom_out();
    s.cursor = cur;
    assert_eq!(s.click_year_cell(&d(2028, 1, 1)), ExitOutcome::StayOpen);
    assert_eq!(s.cursor.granularity, DialogViewType::Months);
    assert_eq!(s.click_month_cell(&d(2024, 7, 1)), ExitOutcome::StayOpen);
    assert_eq!(s.cursor.granularity, DialogViewType::Days);
}

#[test]
fn test_weekdays() {
    // 1970-01-01 was a Thursday, 2024-01-30 a Tuesday
    assert_eq!(weekday_number(&d(1970, 1, 1)), 4);
    assert_eq!(weekday_number(&d(2024, 1, 30)), 2);
    assert_eq!(weekday_thai(2), "อ");
    assert_eq!(weekday_thai(0), "อา");
}

#[test]
fn test_minutes_after_midnight_key() {
    assert_eq!(minutes_after_midnight(&t(23, 59)), 23 * 24 + 59);
    assert_eq!(minutes_after_midnight(&t(0, 5)), 5);
}

#[test]
fn test_now_components_in_range() {
    let n = now();
    assert!(1 <= n.date.year && n.date.year <= 9999);
    assert!(1 <= n.date.month && n.date.month <= 12);
    assert!(1 <= n.date.day && n.date.day <= 31);
    assert!(n.time.hour < 24);
    assert!(n.time.minute < 60);
}

#[test]
fn test_input_changed_datetime() {
    let now = dt(2024, 6, 15, 12, 0);
    assert_eq!(
        input_changed(Picker::DateTime, "30/01/2565 14:55", None, None, &now),
        String::from("2022-01-30T14:55")
    );
    // a configured upper bound in the past rejects the typed value
    let c = bounded(None, Some(dt(2020, 1, 1, 0, 0)));
    assert_eq!(input_changed(Picker::DateTime, "30/01/2565 14:55", None, Some(&c), &now), String::new());
    assert_eq!(input_changed(Picker::DateTime, "gibberish", None, None, &now), String::new());
}

#[test]
fn test_input_changed_date() {
    let now = dt(2024, 6, 15, 12, 0);
    assert_eq!(input_changed(Picker::Date, "30/01/2565", None, None, &now), String::from("2022-01-30"));
    let c = bounded(Some(dt(2023, 1, 1, 0, 0)), None);
    assert_eq!(input_changed(Picker::Date, "30/01/2565", None, Some(&c), &now), String::new());
}

#[test]
fn test_input_changed_time_uses_paired_date() {
    let now = dt(2024, 6, 15, 12, 0);
    assert_eq!(input_changed(Picker::Time, "235", None, None, &now), String::from("02:35"));
    // the paired date field supplies the day the constraints act on
    let c = bounded(Some(dt(2024, 1, 1, 0, 0)), None);
    assert_eq!(
        input_changed(Picker::Time, "235", Some("2023-12-31"), Some(&c), &now),
        String::new()
    );
    assert_eq!(
        input_changed(Picker::Time, "235", Some("2024-01-02"), Some(&c), &now),
        String::from("02:35")
    );
}

#[test]
fn test_month_grid_layout() {
    // January 2024 opens on a Monday: one leading cell from December
    let g = month_grid(2024, 1);
    assert_eq!(g.len(), 42);
    assert_eq!(g[0], d(2023, 12, 31));
    assert_eq!(g[1], d(2024, 1, 1));
    assert_eq!(g[31], d(2024, 1, 31));
    assert_eq!(g[32], d(2024, 2, 1));
    assert_eq!(g[41], d(2024, 2, 10));

    // December 2024 opens on a Sunday and spills into January 2025
    let g = month_grid(2024, 12);
    assert_eq!(g[0], d(2024, 12, 1));
    assert_eq!(g[30], d(2024, 12, 31));
    assert_eq!(g[31], d(2025, 1, 1));
    assert_eq!(g[41], d(2025, 1, 11));
}

#[test]
fn test_resync_follows_external_change() {
    let mut s = SelectionState::open(Picker::Date, config_with(free()), "2024-01-30", &dt(2024, 6, 15, 12, 0));
    assert_eq!(s.selected_date, Some(d(2024, 1, 30)));
    // the host field changed under the dialog
    s.resync("2024-02-14");
    assert_eq!(s.selected_date, Some(d(2024, 2, 14)));
    // and was cleared
    s.resync("");
    assert_eq!(s.selected_date, None);
}

#[test]
fn test_hour_cell_with_bounds_inside_one_hour() {
    // selectable range lies strictly inside hour nine: the hour stays
    // selectable, its neighbours do not
    let c = bounded(Some(dt(2024, 1, 30, 9, 30)), Some(dt(2024, 1, 30, 9, 40)));
    let mut cfg = config_with(c);
    cfg.initial_value = Some(dt(2024, 1, 30, 9, 0));
    let s = SelectionState::open(Picker::DateTime, cfg, "", &dt(2024, 1, 30, 9, 0));
    assert_eq!(s.cursor.focus.date, d(2024, 1, 30));
    assert!(!s.is_hour_forbidden(9));
    assert!(s.is_hour_forbidden(8));
    assert!(s.is_hour_forbidden(10));
}

#[test]
fn test_year_cell_commits_at_years_granularity() {
    let mut cfg = config_with(free());
    cfg.selection_granularity = DialogViewType::Years;
    cfg.initial_granularity = DialogViewType::Years;
    let mut s = SelectionState::open(Picker::Date, cfg, "", &dt(2024, 1, 15, 12, 0));
    assert_eq!(s.click_year_cell(&d(2028, 5, 10)), ExitOutcome::CloseWrite(String::from("2028-01-01")));

    // a forbidden year is ignored
    let mut cfg = config_with(bounded(Some(dt(2024, 1, 1, 0, 0)), None));
    cfg.selection_granularity = DialogViewType::Years;
    cfg.initial_granularity = DialogViewType::Years;
    let mut s = SelectionState::open(Picker::Date, cfg, "", &dt(2024, 1, 15, 12, 0));
    assert_eq!(s.click_year_cell(&d(2020, 5, 10)), ExitOutcome::StayOpen);
}

#[test]
fn test_month_cell_commits_at_months_granularity() {
    let mut cfg = config_with(free());
    cfg.selection_granularity = DialogViewType::Months;
    cfg.initial_granularity = DialogViewType::Months;
    let mut s = SelectionState::open(Picker::Date, cfg, "", &dt(2024, 1, 15, 12, 0));
    assert_eq!(s.click_month_cell(&d(2024, 7, 20)), ExitOutcome::CloseWrite(String::from("2024-07-01")));
}
