//! Rendering calendar values as text: the canonical machine format
//! (`YYYY-MM-DD`, `HH:MM`, `YYYY-MM-DDTHH:MM`) exchanged with the host
//! field, the Buddhist-era display pattern `DD/MM/YYYY[ HH:MM]`, and the
//! Thai display strings with abbreviated month names.

use vstd::prelude::*;
use crate::calendar::date_valid;
use crate::calendar::instant_valid;
use crate::calendar::prev_day_spec;
use crate::calendar::time_valid;
use crate::calendar::CalendarDate;
use crate::calendar::CalendarInstant;
use crate::calendar::ClockTime;
use crate::chars::num_str;
use crate::chars::pad2;
use crate::chars::pad4;
use crate::chars::push_num;
use crate::chars::push_pad2;
use crate::chars::push_pad4;
use crate::clock::now;

verus! {

/// Canonical date text `YYYY-MM-DD`.
pub open spec fn iso_date_seq(d: CalendarDate) -> Seq<char> {
    pad4(d.year as int) + seq!['-'] + pad2(d.month as int) + seq!['-'] + pad2(d.day as int)
}

/// Canonical time text `HH:MM`.
pub open spec fn iso_time_seq(t: ClockTime) -> Seq<char> {
    pad2(t.hour as int) + seq![':'] + pad2(t.minute as int)
}

/// Canonical combined text `YYYY-MM-DDTHH:MM`.
pub open spec fn iso_datetime_seq(i: CalendarInstant) -> Seq<char> {
    iso_date_seq(i.date) + seq!['T'] + iso_time_seq(i.time)
}

/// Buddhist-era display date `DD/MM/YYYY` (year shown as Gregorian + 543).
pub open spec fn date_pat_seq(d: CalendarDate) -> Seq<char> {
    pad2(d.day as int) + seq!['/'] + pad2(d.month as int) + seq!['/'] + num_str(d.year + 543)
}

/// Display time `HH:MM`.
pub open spec fn time_pat_seq(t: ClockTime) -> Seq<char> {
    pad2(t.hour as int) + seq![':'] + pad2(t.minute as int)
}

/// Buddhist-era display text `DD/MM/YYYY HH:MM`.
pub open spec fn datetime_pat_seq(i: CalendarInstant) -> Seq<char> {
    date_pat_seq(i.date) + seq![' '] + time_pat_seq(i.time)
}

/// Abbreviated Thai month name.
pub open spec fn month_thai_seq(m: int) -> Seq<char> {
    if m == 1 {
        "ม.ค."@
    } else if m == 2 {
        "ก.พ."@
    } else if m == 3 {
        "มี.ค."@
    } else if m == 4 {
        "เม.ย."@
    } else if m == 5 {
        "พ.ค."@
    } else if m == 6 {
        "มิ.ย."@
    } else if m == 7 {
        "ก.ค."@
    } else if m == 8 {
        "ส.ค."@
    } else if m == 9 {
        "ก.ย."@
    } else if m == 10 {
        "ต.ค."@
    } else if m == 11 {
        "พ.ย."@
    } else {
        "ธ.ค."@
    }
}

/// Full Thai month name.
pub open spec fn month_thai_full_seq(m: int) -> Seq<char> {
    if m == 1 {
        "มกราคม"@
    } else if m == 2 {
        "กุมภาพันธ์"@
    } else if m == 3 {
        "มีนาคม"@
    } else if m == 4 {
        "เมษายน"@
    } else if m == 5 {
        "พฤษภาคม"@
    } else if m == 6 {
        "มิถุนายน"@
    } else if m == 7 {
        "กรกฎาคม"@
    } else if m == 8 {
        "สิงหาคม"@
    } else if m == 9 {
        "กันยายน"@
    } else if m == 10 {
        "ตุลาคม"@
    } else if m == 11 {
        "พฤศจิกายน"@
    } else {
        "ธันวาคม"@
    }
}

/// Short Thai weekday name, 0 = Sunday .. 6 = Saturday.
pub open spec fn weekday_thai_seq(w: int) -> Seq<char> {
    if w == 0 {
        "อา"@
    } else if w == 1 {
        "จ"@
    } else if w == 2 {
        "อ"@
    } else if w == 3 {
        "พ"@
    } else if w == 4 {
        "พฤ"@
    } else if w == 5 {
        "ศ"@
    } else {
        "ส"@
    }
}

/// Thai display date `30 ม.ค.2567` (day unpadded, Buddhist-era year).
pub open spec fn date_th_seq(d: CalendarDate) -> Seq<char> {
    num_str(d.day as int) + seq![' '] + month_thai_seq(d.month as int) + num_str(d.year + 543)
}

/// Thai display time `01:23 น.`.
pub open spec fn time_hm_seq(t: ClockTime) -> Seq<char> {
    time_pat_seq(t) + " น."@
}

/// Thai display text `30 ม.ค.2567 01:23 น.`.
pub open spec fn datetime_th_seq(i: CalendarInstant) -> Seq<char> {
    date_th_seq(i.date) + seq![' '] + time_hm_seq(i.time)
}

/// Duration text `x ชั่วโมง y นาที`, zero parts left out; the hour and
/// minute parts of a negative duration each carry a minus sign, the way
/// signed integers print.
pub open spec fn duration_hm_seq(s: int) -> Seq<char> {
    let mag = if s >= 0 {
        s
    } else {
        -s
    };
    let h = mag / 3600;
    let m = (mag % 3600) / 60;
    let sign = if s < 0 {
        seq!['-']
    } else {
        Seq::<char>::empty()
    };
    (if h != 0 {
        sign + num_str(h) + " ชั่วโมง"@
    } else {
        Seq::<char>::empty()
    }) + (if h != 0 && m != 0 {
        seq![' ']
    } else {
        Seq::<char>::empty()
    }) + (if m != 0 {
        sign + num_str(m) + " นาที"@
    } else {
        Seq::<char>::empty()
    })
}

/// Text exchanged with the host field.
pub trait JsTime {
    /// The value's well-formedness, under which it can be rendered.
    spec fn js_wf(&self) -> bool;

    /// The canonical text of the value.
    spec fn js_seq(&self) -> Seq<char>;

    /// Renders the canonical text.
    fn js_string(&self) -> (r: String)
        requires
            self.js_wf(),
        ensures
            r@ == self.js_seq(),
    ;
}

impl JsTime for ClockTime {
    open spec fn js_wf(&self) -> bool {
        time_valid(*self)
    }

    open spec fn js_seq(&self) -> Seq<char> {
        iso_time_seq(*self)
    }

    fn js_string(&self) -> (r: String) {
        let mut s = String::new();
        push_pad2(&mut s, self.hour as u64);
        s.append(":");
        push_pad2(&mut s, self.minute as u64);
        proof {
            reveal_strlit(":");
            assert(":"@ =~= seq![':']);
            assert(s@ =~= iso_time_seq(*self));
        }
        s
    }
}

impl JsTime for CalendarDate {
    open spec fn js_wf(&self) -> bool {
        date_valid(*self)
    }

    open spec fn js_seq(&self) -> Seq<char> {
        iso_date_seq(*self)
    }

    fn js_string(&self) -> (r: String) {
        let mut s = String::new();
        push_pad4(&mut s, self.year as u64);
        s.append("-");
        push_pad2(&mut s, self.month as u64);
        s.append("-");
        push_pad2(&mut s, self.day as u64);
        proof {
            reveal_strlit("-");
            assert("-"@ =~= seq!['-']);
            assert(s@ =~= iso_date_seq(*self));
        }
        s
    }
}

impl JsTime for CalendarInstant {
    open spec fn js_wf(&self) -> bool {
        instant_valid(*self)
    }

    open spec fn js_seq(&self) -> Seq<char> {
        iso_datetime_seq(*self)
    }

    fn js_string(&self) -> (r: String) {
        let mut s = self.date.js_string();
        s.append("T");
        let t = self.time.js_string();
        s.append(t.as_str());
        proof {
            reveal_strlit("T");
            assert("T"@ =~= seq!['T']);
            assert(s@ =~= iso_datetime_seq(*self));
        }
        s
    }
}

/// Buddhist-era display date `DD/MM/YYYY`.
pub fn date_pat(date: &CalendarDate) -> (r: String)
    requires
        date_valid(*date),
    ensures
        r@ == date_pat_seq(*date),
{
    let mut s = String::new();
    push_pad2(&mut s, date.day as u64);
    s.append("/");
    push_pad2(&mut s, date.month as u64);
    s.append("/");
    push_num(&mut s, (date.year + 543) as u64);
    proof {
        reveal_strlit("/");
        assert("/"@ =~= seq!['/']);
        assert(s@ =~= date_pat_seq(*date));
    }
    s
}

/// Display time `HH:MM`.
pub fn time_pat(time: &ClockTime) -> (r: String)
    requires
        time_valid(*time),
    ensures
        r@ == time_pat_seq(*time),
{
    let mut s = String::new();
    push_pad2(&mut s, time.hour as u64);
    s.append(":");
    push_pad2(&mut s, time.minute as u64);
    proof {
        reveal_strlit(":");
        assert(":"@ =~= seq![':']);
        assert(s@ =~= time_pat_seq(*time));
    }
    s
}

/// Buddhist-era display text `DD/MM/YYYY HH:MM`.
pub fn datetime_pat(date_time: &CalendarInstant) -> (r: String)
    requires
        instant_valid(*date_time),
    ensures
        r@ == datetime_pat_seq(*date_time),
{
    let mut s = date_pat(&date_time.date);
    s.append(" ");
    let t = time_pat(&date_time.time);
    s.append(t.as_str());
    proof {
        reveal_strlit(" ");
        assert(" "@ =~= seq![' ']);
        assert(s@ =~= datetime_pat_seq(*date_time));
    }
    s
}

/// Abbreviated Thai month name for month 1..=12.
pub fn month_thai(mm: u8) -> (r: &'static str)
    requires
        1 <= mm <= 12,
    ensures
        r@ == month_thai_seq(mm as int),
{
    match mm {
        1 => "ม.ค.",
        2 => "ก.พ.",
        3 => "มี.ค.",
        4 => "เม.ย.",
        5 => "พ.ค.",
        6 => "มิ.ย.",
        7 => "ก.ค.",
        8 => "ส.ค.",
        9 => "ก.ย.",
        10 => "ต.ค.",
        11 => "พ.ย.",
        _ => "ธ.ค.",
    }
}

/// Full Thai month name for month 1..=12.
pub fn month_thai_full(mm: u8) -> (r: &'static str)
    requires
        1 <= mm <= 12,
    ensures
        r@ == month_thai_full_seq(mm as int),
{
    match mm {
        1 => "มกราคม",
        2 => "กุมภาพันธ์",
        3 => "มีนาคม",
        4 => "เมษายน",
        5 => "พฤษภาคม",
        6 => "มิถุนายน",
        7 => "กรกฎาคม",
        8 => "สิงหาคม",
        9 => "กันยายน",
        10 => "ตุลาคม",
        11 => "พฤศจิกายน",
        _ => "ธันวาคม",
    }
}

/// Short Thai weekday name, 0 = Sunday .. 6 = Saturday.
pub fn weekday_thai(ww: u8) -> (r: &'static str)
    requires
        ww < 7,
    ensures
        r@ == weekday_thai_seq(ww as int),
{
    match ww {
        0 => "อา",
        1 => "จ",
        2 => "อ",
        3 => "พ",
        4 => "พฤ",
        5 => "ศ",
        _ => "ส",
    }
}

/// Thai display date `30 ม.ค.2567`.
pub fn date_th(date: &CalendarDate) -> (r: String)
    requires
        date_valid(*date),
    ensures
        r@ == date_th_seq(*date),
{
    let mut s = String::new();
    push_num(&mut s, date.day as u64);
    s.append(" ");
    s.append(month_thai(date.month));
    push_num(&mut s, (date.year + 543) as u64);
    proof {
        reveal_strlit(" ");
        assert(" "@ =~= seq![' ']);
        assert(s@ =~= date_th_seq(*date));
    }
    s
}

/// Thai display time `01:23 น.`.
pub fn time_hm(time: &ClockTime) -> (r: String)
    requires
        time_valid(*time),
    ensures
        r@ == time_hm_seq(*time),
{
    let mut s = time_pat(time);
    s.append(" น.");
    s
}

/// Thai display text `30 ม.ค.2567 01:23 น.`.
pub fn datetime_th(date_time: &CalendarInstant) -> (r: String)
    requires
        instant_valid(*date_time),
    ensures
        r@ == datetime_th_seq(*date_time),
{
    let mut s = date_th(&date_time.date);
    s.append(" ");
    let t = time_hm(&date_time.time);
    s.append(t.as_str());
    proof {
        reveal_strlit(" ");
        assert(" "@ =~= seq![' ']);
        assert(s@ =~= datetime_th_seq(*date_time));
    }
    s
}

/// Thai display text of an optional instant, empty when absent.
pub fn datetime_th_opt(date_time_opt: &Option<CalendarInstant>) -> (r: String)
    requires
        *date_time_opt matches Some(i) ==> instant_valid(i),
    ensures
        r@ == match *date_time_opt {
            Some(i) => datetime_th_seq(i),
            None => Seq::<char>::empty(),
        },
{
    match date_time_opt {
        Some(i) => datetime_th(i),
        None => String::new(),
    }
}

/// Thai display date of an optional date, empty when absent.
pub fn date_th_opt(date_opt: &Option<CalendarDate>) -> (r: String)
    requires
        *date_opt matches Some(d) ==> date_valid(d),
    ensures
        r@ == match *date_opt {
            Some(d) => date_th_seq(d),
            None => Seq::<char>::empty(),
        },
{
    match date_opt {
        Some(d) => date_th(d),
        None => String::new(),
    }
}

/// Thai display time of an optional time, empty when absent.
pub fn time_hm_opt(time_opt: &Option<ClockTime>) -> (r: String)
    requires
        *time_opt matches Some(t) ==> time_valid(t),
    ensures
        r@ == match *time_opt {
            Some(t) => time_hm_seq(t),
            None => Seq::<char>::empty(),
        },
{
    match time_opt {
        Some(t) => time_hm(t),
        None => String::new(),
    }
}

/// Thai display date relative to `today`: the day itself becomes
/// `วันนี้`, the day before it `เมื่อวาน`, anything else the plain Thai
/// date.
pub fn date_th_relative_at(date: &CalendarDate, today: &CalendarDate) -> (r: String)
    requires
        date_valid(*date),
        date_valid(*today),
    ensures
        r@ == if *date == *today {
            "วันนี้"@
        } else if Some(*date) == prev_day_spec(*today) {
            "เมื่อวาน"@
        } else {
            date_th_seq(*date)
        },
{
    if date.year == today.year && date.month == today.month && date.day == today.day {
        String::from_str("วันนี้")
    } else {
        let yesterday = crate::calendar::previous_day(today);
        let is_yesterday: bool = match yesterday {
            Some(y) => date.year == y.year && date.month == y.month && date.day == y.day,
            None => false,
        };
        if is_yesterday {
            String::from_str("เมื่อวาน")
        } else {
            date_th(date)
        }
    }
}

/// Thai display date relative to the current day on the UTC+7 clock.
pub fn date_th_relative(date: &CalendarDate) -> (r: String)
    requires
        date_valid(*date),
    ensures
        r@ == "วันนี้"@ || r@ == "เมื่อวาน"@ || r@ == date_th_seq(*date),
{
    let today = now();
    date_th_relative_at(date, &today.date)
}

/// Thai display date of an optional date relative to `today`, empty when
/// absent.
pub fn date_th_opt_relative(date_opt: &Option<CalendarDate>) -> (r: String)
    requires
        *date_opt matches Some(d) ==> date_valid(d),
    ensures
        date_opt is None ==> r@ == Seq::<char>::empty(),
        *date_opt matches Some(d) ==> (r@ == "วันนี้"@ || r@ == "เมื่อวาน"@ || r@
            == date_th_seq(d)),
{
    match date_opt {
        Some(d) => date_th_relative(d),
        None => String::new(),
    }
}

/// Thai display text of an instant relative to `today`.
pub fn datetime_th_relative_at(date_time: &CalendarInstant, today: &CalendarDate) -> (r: String)
    requires
        instant_valid(*date_time),
        date_valid(*today),
    ensures
        r@ == (if date_time.date == *today {
            "วันนี้"@
        } else if Some(date_time.date) == prev_day_spec(*today) {
            "เมื่อวาน"@
        } else {
            date_th_seq(date_time.date)
        }) + seq![' '] + time_hm_seq(date_time.time),
{
    let mut s = date_th_relative_at(&date_time.date, today);
    s.append(" ");
    let t = time_hm(&date_time.time);
    s.append(t.as_str());
    proof {
        reveal_strlit(" ");
        assert(" "@ =~= seq![' ']);
    }
    s
}

/// Thai display text of an instant relative to the current day.
pub fn datetime_th_relative(date_time: &CalendarInstant) -> (r: String)
    requires
        instant_valid(*date_time),
    ensures
        exists|day: Seq<char>|
            r@ == day + seq![' '] + time_hm_seq(date_time.time) && (day == "วันนี้"@ || day
                == "เมื่อวาน"@ || day == date_th_seq(date_time.date)),
{
    let today = now();
    let r = datetime_th_relative_at(date_time, &today.date);
    proof {
        if date_time.date == today.date {
            assert(r@ == "วันนี้"@ + seq![' '] + time_hm_seq(date_time.time));
        }
    }
    r
}

/// Thai display text of an optional instant relative to the current day,
/// empty when absent.
pub fn datetime_th_opt_relative(date_time_opt: &Option<CalendarInstant>) -> (r: String)
    requires
        *date_time_opt matches Some(i) ==> instant_valid(i),
    ensures
        date_time_opt is None ==> r@ == Seq::<char>::empty(),
        *date_time_opt matches Some(i) ==> exists|day: Seq<char>|
            r@ == day + seq![' '] + time_hm_seq(i.time) && (day == "วันนี้"@ || day
                == "เมื่อวาน"@ || day == date_th_seq(i.date)),
{
    match date_time_opt {
        Some(i) => datetime_th_relative(i),
        None => String::new(),
    }
}

/// Duration shown as whole hours and minutes, `x ชั่วโมง y นาที`, with
/// zero parts left out entirely and signed parts for a negative
/// duration.
pub fn duration_hm(seconds: i64) -> (r: String)
    ensures
        r@ == duration_hm_seq(seconds as int),
{
    let neg: bool = seconds < 0;
    let mag: u64 = if seconds >= 0 {
        seconds as u64
    } else {
        ((-(seconds + 1)) as u64) + 1
    };
    proof {
        assert(mag == if seconds >= 0 {
            seconds as int
        } else {
            -(seconds as int)
        });
    }
    let hours: u64 = mag / 3600;
    let minutes: u64 = (mag % 3600) / 60;
    let mut s = String::new();
    if hours != 0 {
        if neg {
            s.append("-");
        }
        push_num(&mut s, hours);
        s.append(" ชั่วโมง");
    }
    if hours != 0 && minutes != 0 {
        s.append(" ");
    }
    if minutes != 0 {
        if neg {
            s.append("-");
        }
        push_num(&mut s, minutes);
        s.append(" นาที");
    }
    proof {
        reveal_strlit(" ");
        reveal_strlit("-");
        assert(" "@ =~= seq![' ']);
        assert("-"@ =~= seq!['-']);
        assert(s@ =~= duration_hm_seq(seconds as int));
    }
    s
}

} // verus!
