use picker_core::date_8601;
use picker_core::date_from_pat_at;
use picker_core::date_pat_from_8601;
use picker_core::datetime_pat_from_8601;
use picker_core::time_pat_from_8601;
use picker_core::date_pat;
use picker_core::date_str_th;
use picker_core::date_th;
use picker_core::datetime_8601;
use picker_core::datetime_from_pat_at;
use picker_core::datetime_pat;
use picker_core::datetime_str_th;
use picker_core::datetime_th;
use picker_core::datetime_ts;
use picker_core::duration_hm;
use picker_core::time_8601;
use picker_core::time_from_pat;
use picker_core::time_hm;
use picker_core::time_pat;
use picker_core::time_str_hm;
use picker_core::CalendarDate;
use picker_core::CalendarInstant;
use picker_core::ClockTime;
use picker_core::JsTime;

fn d(year: i32, month: u8, day: u8) -> CalendarDate {
    CalendarDate { year, month, day }
}

fn t(hour: u8, minute: u8) -> ClockTime {
    ClockTime { hour, minute }
}

fn dt(year: i32, month: u8, day: u8, hour: u8, minute: u8) -> CalendarInstant {
    CalendarInstant { date: d(year, month, day), time: t(hour, minute) }
}

#[test]
fn test_datetime_8601() {
    assert_eq!(datetime_8601("2024-01-30T12:34"), Some(dt(2024, 1, 30, 12, 34)));
    assert_eq!(datetime_8601("2024-01-30T12:34:56"), Some(dt(2024, 1, 30, 12, 34)));
    assert_eq!(datetime_8601("2024-01-30T12:34:56.123456789"), Some(dt(2024, 1, 30, 12, 34)));
    assert_eq!(datetime_8601("2024-01-30T12:34:56.123456789Z"), Some(dt(2024, 1, 30, 12, 34)));
    assert_eq!(datetime_8601("2024-01-30T12:34:56.123456789+07:00"), Some(dt(2024, 1, 30, 12, 34)));
    assert_eq!(datetime_8601("2024-01-30T12:34:56.123456789-08:00"), Some(dt(2024, 1, 30, 12, 34)));

    assert_eq!(datetime_8601("2024-01-30 12:34"), Some(dt(2024, 1, 30, 12, 34)));
    assert_eq!(datetime_8601("2024-01-30 12:34:56"), Some(dt(2024, 1, 30, 12, 34)));
    assert_eq!(datetime_8601("2024-01-30 12:34:56.123456789"), Some(dt(2024, 1, 30, 12, 34)));
    assert_eq!(datetime_8601("2024-01-30 12:34:56.123456789Z"), Some(dt(2024, 1, 30, 12, 34)));
    assert_eq!(datetime_8601("2024-01-30 12:34:56.123456789+07:00"), Some(dt(2024, 1, 30, 12, 34)));
    assert_eq!(datetime_8601("2024-01-30 12:34:56.123456789-08:00"), Some(dt(2024, 1, 30, 12, 34)));

    assert_eq!(datetime_8601("2024-01-30 23:45:67"), None);
    assert_eq!(datetime_8601("2024-01-30"), None);
    assert_eq!(datetime_8601("12:34:56"), None);
}

#[test]
fn test_date_8601() {
    assert_eq!(date_8601("2024-01-30"), CalendarDate::checked(2024, 1, 30));
    assert_eq!(date_8601("2024-01-33"), None);
}

#[test]
fn test_time_8601() {
    assert_eq!(time_8601("12:34"), ClockTime::checked(12, 34));
    assert_eq!(time_8601("12:34:56"), ClockTime::checked(12, 34));
    assert_eq!(time_8601("12:34:56.123456789"), ClockTime::checked(12, 34));
    assert_eq!(time_8601("12:34:56.123456789Z"), ClockTime::checked(12, 34));
    assert_eq!(time_8601("12:34:56.123456789+07:00"), ClockTime::checked(12, 34));
    assert_eq!(time_8601("12:34:56.123456789-08:00"), ClockTime::checked(12, 34));

    assert_eq!(time_8601("23:45:67"), None);
}

#[test]
fn test_datetime_th() {
    assert_eq!(datetime_th(&dt(2024, 1, 30, 1, 23)), String::from("30 ม.ค.2567 01:23 น."));
    assert_eq!(datetime_th(&dt(2024, 1, 30, 1, 23)), String::from("30 ม.ค.2567 01:23 น."));
}

#[test]
fn test_date_th() {
    assert_eq!(date_th(&d(2024, 1, 30)), String::from("30 ม.ค.2567"));
}

#[test]
fn test_time_hm() {
    assert_eq!(time_hm(&t(1, 23)), String::from("01:23 น."));
    assert_eq!(time_hm(&t(1, 23)), String::from("01:23 น."));
    assert_eq!(time_hm(&t(1, 23)), String::from("01:23 น."));
}

#[test]
fn test_datetime_str_th() {
    assert_eq!(datetime_str_th("2024-01-30T01:23"), String::from("30 ม.ค.2567 01:23 น."));
    assert_eq!(datetime_str_th("2024-01-30T01:23:45"), String::from("30 ม.ค.2567 01:23 น."));
    assert_eq!(datetime_str_th("2024-01-30T01:23:45.123456789"), String::from("30 ม.ค.2567 01:23 น."));
    assert_eq!(datetime_str_th("2024-01-30T01:23:45.123456789Z"), String::from("30 ม.ค.2567 01:23 น."));
    assert_eq!(datetime_str_th("2024-01-30T01:23:45.123456789+07:00"), String::from("30 ม.ค.2567 01:23 น."));
    assert_eq!(datetime_str_th("2024-01-30T01:23:45.123456789-08:00"), String::from("30 ม.ค.2567 01:23 น."));

    assert_eq!(datetime_str_th("2024-01-30 01:23"), String::from("30 ม.ค.2567 01:23 น."));
    assert_eq!(datetime_str_th("2024-01-30 01:23:45"), String::from("30 ม.ค.2567 01:23 น."));
    assert_eq!(datetime_str_th("2024-01-30 01:23:45.123456789"), String::from("30 ม.ค.2567 01:23 น."));
    assert_eq!(datetime_str_th("2024-01-30 01:23:45.123456789Z"), String::from("30 ม.ค.2567 01:23 น."));
    assert_eq!(datetime_str_th("2024-01-30 01:23:45.123456789+07:00"), String::from("30 ม.ค.2567 01:23 น."));
    assert_eq!(datetime_str_th("2024-01-30 01:23:45.123456789-08:00"), String::from("30 ม.ค.2567 01:23 น."));

    assert_eq!(datetime_str_th("2024-01-33 01:23"), String::new());
    assert_eq!(datetime_str_th("2024-01-30"), String::new());
    assert_eq!(datetime_str_th("01:23"), String::new());
}

#[test]
fn test_date_str_th() {
    assert_eq!(date_str_th("2024-01-30"), String::from("30 ม.ค.2567"));
    assert_eq!(date_str_th("2024-01-33"), String::new());
}

#[test]
fn test_time_str_hm() {
    assert_eq!(time_str_hm("01:23"), String::from("01:23 น."));
    assert_eq!(time_str_hm("01:23:45"), String::from("01:23 น."));
    assert_eq!(time_str_hm("01:23:45.123456789"), String::from("01:23 น."));
    assert_eq!(time_str_hm("01:23:45.123456789Z"), String::from("01:23 น."));
    assert_eq!(time_str_hm("01:23:45.123456789+07:00"), String::from("01:23 น."));
    assert_eq!(time_str_hm("01:23:45.123456789-08:00"), String::from("01:23 น."));

    assert_eq!(time_str_hm("01:66"), String::new());
}

#[test]
fn test_duration_hm() {
    assert_eq!(duration_hm(119), String::from("1 นาที"));
    assert_eq!(duration_hm(32400), String::from("9 ชั่วโมง"));
    assert_eq!(duration_hm(32460), String::from("9 ชั่วโมง 1 นาที"));
}

#[test]
fn test_datetime_ts() {
    assert_eq!(datetime_ts(&dt(2024, 1, 30, 1, 23), 45), 1706552625000);
}

#[test]
fn test_date_pat() {
    assert_eq!(date_pat(&d(2022, 1, 30)), String::from("30/01/2565"));
}

#[test]
fn test_time_pat() {
    assert_eq!(time_pat(&t(14, 55)), String::from("14:55"));
}

#[test]
fn test_datetime_pat() {
    assert_eq!(datetime_pat(&dt(2022, 1, 30, 14, 55)), String::from("30/01/2565 14:55"));
}

#[test]
fn test_date_from_pat() {
    // with the current year 2024, the Buddhist-era century bucket is 2500
    let now_year = 2024;
    // DD/MM/YYYY
    assert_eq!(date_from_pat_at("30/01/2565", now_year), Some(d(2022, 1, 30)));
    assert_eq!(date_from_pat_at("30/01/65", now_year), CalendarDate::checked(2022, 1, 30));
    assert_eq!(date_from_pat_at("2/1/65", now_year), CalendarDate::checked(2022, 1, 2));
    assert_eq!(date_from_pat_at("30012565", now_year), Some(d(2022, 1, 30)));
    assert_eq!(date_from_pat_at("300165", now_year), CalendarDate::checked(2022, 1, 30));
    // MM/DD/YYYY
    assert_eq!(date_from_pat_at("11/13/2565", now_year), Some(d(2022, 11, 13)));
    assert_eq!(date_from_pat_at("11/13/65", now_year), CalendarDate::checked(2022, 11, 13));
    assert_eq!(date_from_pat_at("11132565", now_year), Some(d(2022, 11, 13)));
    assert_eq!(date_from_pat_at("111365", now_year), CalendarDate::checked(2022, 11, 13));
    // separators
    assert_eq!(date_from_pat_at("30-01-2565", now_year), Some(d(2022, 1, 30)));
    assert_eq!(date_from_pat_at("30.01.2565", now_year), Some(d(2022, 1, 30)));
    assert_eq!(date_from_pat_at("30:01:2565", now_year), Some(d(2022, 1, 30)));
    assert_eq!(date_from_pat_at("30.01:2565", now_year), Some(d(2022, 1, 30)));
    assert_eq!(date_from_pat_at("30x01z2565", now_year), Some(d(2022, 1, 30)));
    // overflow
    assert_eq!(date_from_pat_at("300125659", now_year), Some(d(2022, 1, 30)));
    assert_eq!(date_from_pat_at("3001659", now_year), CalendarDate::checked(2022, 1, 30));
    // failed
    assert_eq!(date_from_pat_at("40/1/2565", now_year), None);
    assert_eq!(date_from_pat_at("13/13/2565", now_year), None);
    assert_eq!(date_from_pat_at("131313", now_year), None);
    assert_eq!(date_from_pat_at("12121", now_year), None);
}

#[test]
fn test_time_from_pat() {
    assert_eq!(time_from_pat("14:55"), Some(t(14, 55)));
    assert_eq!(time_from_pat("2:55"), Some(t(2, 55)));
    assert_eq!(time_from_pat("2:5"), Some(t(2, 5)));
    assert_eq!(time_from_pat("1455"), Some(t(14, 55)));
    assert_eq!(time_from_pat("025"), Some(t(0, 25))); // not 02:05
    assert_eq!(time_from_pat("125"), Some(t(1, 25))); // not 12:05
    assert_eq!(time_from_pat("235"), Some(t(2, 35))); // not 23:05
    assert_eq!(time_from_pat("245"), Some(t(2, 45)));
    assert_eq!(time_from_pat("345"), Some(t(3, 45)));
    assert_eq!(time_from_pat("066"), Some(t(6, 6)));
    assert_eq!(time_from_pat("166"), Some(t(16, 6)));
    assert_eq!(time_from_pat("02"), Some(t(0, 2)));
    assert_eq!(time_from_pat("10"), Some(t(10, 0)));
    assert_eq!(time_from_pat("23"), Some(t(23, 0)));
    assert_eq!(time_from_pat("24"), Some(t(2, 4)));
    assert_eq!(time_from_pat("99"), Some(t(9, 9)));
    assert_eq!(time_from_pat("0"), Some(t(0, 0)));
    // separators
    assert_eq!(time_from_pat("14-55"), Some(t(14, 55)));
    assert_eq!(time_from_pat("14/55"), Some(t(14, 55)));
    assert_eq!(time_from_pat("14.55"), Some(t(14, 55)));
    assert_eq!(time_from_pat("14x55"), Some(t(14, 55)));
    // overflow
    assert_eq!(time_from_pat("14559"), Some(t(14, 55)));
    // failed
    assert_eq!(time_from_pat("25:55"), None);
    assert_eq!(time_from_pat("14:65"), None);
    assert_eq!(time_from_pat("9999"), None);
    assert_eq!(time_from_pat("999"), None);
    assert_eq!(time_from_pat(""), None);
}

#[test]
fn test_datetime_from_pat() {
    assert_eq!(datetime_from_pat_at("30/01/2565 14:55", 2024), Some(dt(2022, 1, 30, 14, 55)));
    // T divides the halves just like a space
    assert_eq!(datetime_from_pat_at("30/01/2565T14:55", 2024), Some(dt(2022, 1, 30, 14, 55)));
    // failed: three fields after splitting
    assert_eq!(datetime_from_pat_at("30/01/2565 14:55 x", 2024), None);
    assert_eq!(datetime_from_pat_at("30/01/2565", 2024), None);
}

#[test]
fn test_digit_run_matches_separated() {
    let a = date_from_pat_at("30012565", 2024);
    let b = date_from_pat_at("30/01/2565", 2024);
    assert_eq!(a, b);
    assert_eq!(a, Some(d(2022, 1, 30)));
}

#[test]
fn test_century_inference() {
    // the current year 2024 lies in Buddhist year 2567, so a short year
    // 65 lands in the 2500 bucket: Buddhist 2565, Gregorian 2022
    assert_eq!(date_from_pat_at("300165", 2024), Some(d(2022, 1, 30)));
}

#[test]
fn test_field_order_fallback() {
    // day slot 11, month slot 13: 13 is no month, so the slots swap
    assert_eq!(date_from_pat_at("11132565", 2024), Some(d(2022, 11, 13)));
}

#[test]
fn test_pattern_round_trips() {
    let dates = [d(2022, 1, 30), d(2024, 2, 29), d(1, 1, 1), d(9999, 12, 31), d(2023, 6, 5)];
    for x in dates {
        assert_eq!(date_from_pat_at(&date_pat(&x), 2024), Some(x));
    }
    let times = [t(0, 0), t(2, 35), t(23, 59), t(10, 0)];
    for x in times {
        assert_eq!(time_from_pat(&time_pat(&x)), Some(x));
    }
    let instants = [dt(2022, 1, 30, 14, 55), dt(2024, 12, 31, 0, 0)];
    for x in instants {
        assert_eq!(datetime_from_pat_at(&datetime_pat(&x), 2024), Some(x));
    }
}

#[test]
fn test_canonical_round_trips() {
    let x = d(2024, 1, 30);
    assert_eq!(x.js_string(), String::from("2024-01-30"));
    assert_eq!(date_8601(&x.js_string()), Some(x));
    let y = t(9, 5);
    assert_eq!(y.js_string(), String::from("09:05"));
    assert_eq!(time_8601(&y.js_string()), Some(y));
    let z = dt(2024, 1, 30, 9, 5);
    assert_eq!(z.js_string(), String::from("2024-01-30T09:05"));
    assert_eq!(datetime_8601(&z.js_string()), Some(z));
    let early = d(33, 7, 4);
    assert_eq!(early.js_string(), String::from("0033-07-04"));
    assert_eq!(date_8601(&early.js_string()), Some(early));
}

#[test]
fn test_iso_rejects_malformed() {
    assert_eq!(date_8601("2024-1-30"), None);
    assert_eq!(date_8601("2024/01/30"), None);
    assert_eq!(date_8601("0000-01-30"), None);
    assert_eq!(time_8601("9:05"), None);
    assert_eq!(time_8601("24:00"), None);
    assert_eq!(time_8601("12:34:"), None);
    assert_eq!(time_8601("12:34:56."), None);
    assert_eq!(time_8601("12:34:56+25:00"), None);
    assert_eq!(datetime_8601("2024-01-30T12:34 extra"), None);
}

#[test]
fn test_pat_from_8601() {
    assert_eq!(date_pat_from_8601("2022-01-30"), String::from("30/01/2565"));
    assert_eq!(date_pat_from_8601("2022-01-33"), String::new());
    assert_eq!(time_pat_from_8601("14:55:09"), String::from("14:55"));
    assert_eq!(time_pat_from_8601("x"), String::new());
    assert_eq!(datetime_pat_from_8601("2022-01-30T14:55"), String::from("30/01/2565 14:55"));
    assert_eq!(datetime_pat_from_8601("2022-01-30"), String::new());
}

#[test]
fn test_three_digit_trailing_sixty() {
    // a trailing pair of 60 or more falls back to the two-digit hour
    assert_eq!(time_from_pat("160"), Some(t(16, 0)));
    assert_eq!(time_from_pat("060"), Some(t(6, 0)));
    assert_eq!(time_from_pat("960"), None);
    assert_eq!(time_from_pat("966"), None);
}

#[test]
fn test_plus_signed_fields() {
    // numeric fields tolerate the explicit plus sign an integer literal may carry
    assert_eq!(date_from_pat_at("30/+1/2565", 2024), Some(d(2022, 1, 30)));
    assert_eq!(date_from_pat_at("+30/01/+2565", 2024), Some(d(2022, 1, 30)));
    assert_eq!(time_from_pat("+14:+55"), Some(t(14, 55)));
    // a second sign, or a bare sign, is no number
    assert_eq!(date_from_pat_at("30/++1/2565", 2024), None);
    assert_eq!(time_from_pat("+:55"), None);
}

#[test]
fn test_unicode_whitespace_around_fields() {
    assert_eq!(date_from_pat_at("30/\u{A0}1\u{A0}/2565", 2024), Some(d(2022, 1, 30)));
    assert_eq!(time_from_pat("14:\u{2009}55\u{2009}"), Some(t(14, 55)));
}

#[test]
fn test_duration_hm_negative() {
    assert_eq!(duration_hm(-119), String::from("-1 นาที"));
    assert_eq!(duration_hm(-32400), String::from("-9 ชั่วโมง"));
    assert_eq!(duration_hm(-32460), String::from("-9 ชั่วโมง -1 นาที"));
    assert_eq!(duration_hm(0), String::new());
}
