//! The canonical text grammar exchanged with the host field.
//!
//! Dates are `YYYY-MM-DD`; times are `HH:MM`, optionally with seconds, a
//! fractional part and a zone designator (`HH:MM:SS.frac` followed by `Z`
//! or `±HH[:MM]`), all of which are validated and then discarded, since
//! stored times are normalized to whole minutes; the combined form joins
//! the two with `T` or a space. Parsers also render straight to the Thai
//! display strings, which is what the picker's overlay label shows.

use vstd::prelude::*;
use crate::calendar::date_valid;
use crate::calendar::time_valid;
use crate::calendar::ymd_valid;
use crate::calendar::CalendarDate;
use crate::calendar::CalendarInstant;
use crate::calendar::ClockTime;
use crate::chars::all_digits;
use crate::chars::replace_t;
use crate::chars::replace_t_vec;
use crate::chars::digits_val;
use crate::chars::is_digit_char;
use crate::chars::to_chars;
use crate::parse::digits_value;
use crate::parse::lemma_leading_digits_is;
use crate::parse::lemma_pow10_small;
use crate::parse::leading_digits;
use crate::parse::range_digits;
use crate::parse::split_fields;
use crate::parse::split_from;
use crate::parse::trim_seq;
use crate::parse::trim_vec;
use crate::render::date_th;
use crate::render::date_th_seq;
use crate::render::datetime_th_opt_relative;
use crate::render::time_hm;
use crate::render::time_hm_seq;

verus! {

/// A zone designator: `Z`, `±HH` or `±HH:MM`.
pub open spec fn iso_offset_ok(r: Seq<char>) -> bool {
    (r.len() == 1 && r[0] == 'Z') || ((r.len() == 3 || r.len() == 6) && (r[0] == '+' || r[0] == '-')
        && all_digits(r.subrange(1, 3)) && digits_val(r.subrange(1, 3)) < 24 && (r.len() == 3 || (
    r[3] == ':' && all_digits(r.subrange(4, 6)) && digits_val(r.subrange(4, 6)) < 60)))
}

/// What may follow the seconds: nothing, a fractional part of at least
/// one digit (optionally followed by a zone), or a zone.
pub open spec fn iso_tail_ok(r: Seq<char>) -> bool {
    r.len() == 0 || (r[0] == '.' && leading_digits(r.skip(1)) >= 1 && (r.skip(1).skip(
        leading_digits(r.skip(1)),
    ).len() == 0 || iso_offset_ok(r.skip(1).skip(leading_digits(r.skip(1)))))) || iso_offset_ok(r)
}

/// What may follow `HH:MM`: nothing, `:SS` with a valid second and its
/// tail, or a zone.
pub open spec fn iso_rest_ok(r: Seq<char>) -> bool {
    r.len() == 0 || (r[0] == ':' && r.len() >= 3 && all_digits(r.subrange(1, 3)) && digits_val(
        r.subrange(1, 3),
    ) < 60 && iso_tail_ok(r.skip(3))) || iso_offset_ok(r)
}

/// The canonical date denoted by `s`: exactly `YYYY-MM-DD`, and a real
/// calendar day.
pub open spec fn parse_iso_date_seq(s: Seq<char>) -> Option<CalendarDate> {
    if s.len() == 10 && s[4] == '-' && s[7] == '-' && all_digits(s.subrange(0, 4)) && all_digits(
        s.subrange(5, 7),
    ) && all_digits(s.subrange(8, 10)) {
        let y = digits_val(s.subrange(0, 4));
        let m = digits_val(s.subrange(5, 7));
        let d = digits_val(s.subrange(8, 10));
        if ymd_valid(y, m, d) {
            Some(CalendarDate { year: y as i32, month: m as u8, day: d as u8 })
        } else {
            None
        }
    } else {
        None
    }
}

/// The canonical time denoted by `s`: `HH:MM`, optionally followed by
/// seconds, fraction and zone, which must be well-formed but are
/// discarded.
pub open spec fn parse_iso_time_seq(s: Seq<char>) -> Option<ClockTime> {
    if s.len() >= 5 && all_digits(s.subrange(0, 2)) && s[2] == ':' && all_digits(
        s.subrange(3, 5),
    ) {
        let h = digits_val(s.subrange(0, 2));
        let m = digits_val(s.subrange(3, 5));
        if h < 24 && m < 60 && iso_rest_ok(s.skip(5)) {
            Some(ClockTime { hour: h as u8, minute: m as u8 })
        } else {
            None
        }
    } else {
        None
    }
}

/// The canonical combined value: after replacing `T` by a space, exactly
/// one date half and one time half, both of which must parse.
pub open spec fn parse_iso_datetime_seq(s: Seq<char>) -> Option<CalendarInstant> {
    let fs = split_fields(replace_t(s), true);
    if fs.len() == 2 {
        if parse_iso_date_seq(trim_seq(fs[0])) is Some && parse_iso_time_seq(
            trim_seq(fs[1]),
        ) is Some {
            Some(
                CalendarInstant {
                    date: parse_iso_date_seq(trim_seq(fs[0]))->0,
                    time: parse_iso_time_seq(trim_seq(fs[1]))->0,
                },
            )
        } else {
            None
        }
    } else {
        None
    }
}

/// Checks a zone designator at `v[from..]`.
fn offset_check(v: &Vec<char>, from: usize) -> (r: bool)
    requires
        from <= v@.len(),
    ensures
        r == iso_offset_ok(v@.skip(from as int)),
{
    let ghost s = v@.skip(from as int);
    let n = v.len();
    let rl = n - from;
    proof {
        assert(s.len() == rl);
    }
    if rl == 1 && v[from] == 'Z' {
        proof {
            assert(s[0] == v@[from as int]);
        }
        return true;
    }
    if (rl == 3 || rl == 6) && (v[from] == '+' || v[from] == '-') {
        proof {
            assert(s[0] == v@[from as int]);
            assert(s.subrange(1, 3) =~= v@.subrange(from + 1, from + 3));
        }
        if range_digits(v, from + 1, from + 3) {
            let hh = digits_value(v, from + 1, from + 3);
            if hh < 24 {
                if rl == 3 {
                    return true;
                }
                proof {
                    assert(s[3] == v@[from + 3]);
                    assert(s.subrange(4, 6) =~= v@.subrange(from + 4, from + 6));
                }
                if v[from + 3] == ':' && range_digits(v, from + 4, from + 6) {
                    let mm = digits_value(v, from + 4, from + 6);
                    if mm < 60 {
                        return true;
                    }
                }
            }
        }
    }
    proof {
        if s.len() == 1 {
            assert(s[0] == v@[from as int]);
        }
        if s.len() == 3 || s.len() == 6 {
            assert(s[0] == v@[from as int]);
            assert(s.subrange(1, 3) =~= v@.subrange(from + 1, from + 3));
            if s.len() == 6 {
                assert(s[3] == v@[from + 3]);
                assert(s.subrange(4, 6) =~= v@.subrange(from + 4, from + 6));
            }
        }
    }
    false
}

/// Checks what may follow the seconds at `v[from..]`.
fn tail_check(v: &Vec<char>, from: usize) -> (r: bool)
    requires
        from <= v@.len(),
    ensures
        r == iso_tail_ok(v@.skip(from as int)),
{
    let ghost s = v@.skip(from as int);
    let n = v.len();
    if from == n {
        return true;
    }
    proof {
        assert(s[0] == v@[from as int]);
    }
    if v[from] == '.' {
        let ghost fr = s.skip(1);
        let mut k: usize = from + 1;
        while k < n && is_digit(v[k])
            invariant
                from + 1 <= k <= n == v@.len(),
                forall|i: int| from + 1 <= i < k ==> is_digit_char(#[trigger] v@[i]),
            decreases n - k,
        {
            k += 1;
        }
        proof {
            assert(fr =~= v@.skip(from + 1));
            assert forall|i: int| 0 <= i < k - from - 1 implies is_digit_char(
                #[trigger] fr[i],
            ) by {
                assert(fr[i] == v@[from + 1 + i]);
            }
            if k < n {
                assert(fr[k - from - 1] == v@[k as int]);
            }
            lemma_leading_digits_is(fr, k - from - 1);
        }
        if k == from + 1 {
            return false;
        }
        if k == n {
            proof {
                assert(fr.skip(leading_digits(fr)).len() == 0);
            }
            return true;
        }
        let r = offset_check(v, k);
        proof {
            assert(fr.skip(leading_digits(fr)) =~= v@.skip(k as int));
        }
        r
    } else {
        let r = offset_check(v, from);
        proof {
            assert(s =~= v@.skip(from as int));
        }
        r
    }
}

/// Whether `c` is a decimal digit.
pub(crate) fn is_digit(c: char) -> (r: bool)
    ensures
        r == is_digit_char(c),
{
    '0' <= c && c <= '9'
}

/// Checks what may follow `HH:MM` at `v[from..]`.
fn rest_check(v: &Vec<char>, from: usize) -> (r: bool)
    requires
        from <= v@.len(),
    ensures
        r == iso_rest_ok(v@.skip(from as int)),
{
    let ghost s = v@.skip(from as int);
    let n = v.len();
    if from == n {
        return true;
    }
    proof {
        assert(s[0] == v@[from as int]);
    }
    if v[from] == ':' {
        if n - from >= 3 {
            proof {
                assert(s.subrange(1, 3) =~= v@.subrange(from + 1, from + 3));
            }
            if range_digits(v, from + 1, from + 3) {
                let ss = digits_value(v, from + 1, from + 3);
                if ss < 60 {
                    let r = tail_check(v, from + 3);
                    proof {
                        assert(s.skip(3) =~= v@.skip(from + 3));
                    }
                    return r;
                }
            }
        }
        proof {
            if s.len() >= 3 {
                assert(s.subrange(1, 3) =~= v@.subrange(from + 1, from + 3));
            }
        }
        false
    } else {
        offset_check(v, from)
    }
}

/// Parses a canonical date from characters.
pub(crate) fn parse_iso_date_chars(cs: &Vec<char>) -> (r: Option<CalendarDate>)
    ensures
        r == parse_iso_date_seq(cs@),
        r matches Some(d) ==> date_valid(d),
{
    if cs.len() == 10 && cs[4] == '-' && cs[7] == '-' && range_digits(cs, 0, 4) && range_digits(
        cs,
        5,
        7,
    ) && range_digits(cs, 8, 10) {
        let y = digits_value(cs, 0, 4);
        let m = digits_value(cs, 5, 7);
        let d = digits_value(cs, 8, 10);
        proof {
            lemma_pow10_small();
        }
        CalendarDate::checked(y as i32, m as u8, d as u8)
    } else {
        None
    }
}

/// Parses canonical date text `YYYY-MM-DD`.
pub fn date_8601(text: &str) -> (r: Option<CalendarDate>)
    ensures
        r == parse_iso_date_seq(text@),
        r matches Some(d) ==> date_valid(d),
{
    let cs = to_chars(text);
    parse_iso_date_chars(&cs)
}

/// Parses a canonical time from characters.
pub(crate) fn parse_iso_time_chars(cs: &Vec<char>) -> (r: Option<ClockTime>)
    ensures
        r == parse_iso_time_seq(cs@),
        r matches Some(t) ==> time_valid(t),
{
    if cs.len() >= 5 && cs[2] == ':' && range_digits(cs, 0, 2) && range_digits(cs, 3, 5) {
        let h = digits_value(cs, 0, 2);
        let m = digits_value(cs, 3, 5);
        proof {
            lemma_pow10_small();
        }
        if h < 24 && m < 60 && rest_check(cs, 5) {
            Some(ClockTime { hour: h as u8, minute: m as u8 })
        } else {
            None
        }
    } else {
        None
    }
}

/// Parses canonical time text `HH:MM[:SS[.frac]][Z|±HH[:MM]]`; seconds
/// and finer parts are validated, then discarded.
pub fn time_8601(text: &str) -> (r: Option<ClockTime>)
    ensures
        r == parse_iso_time_seq(text@),
        r matches Some(t) ==> time_valid(t),
{
    let cs = to_chars(text);
    parse_iso_time_chars(&cs)
}

/// Parses canonical combined text `YYYY-MM-DD HH:MM` (with `T` or space
/// between the halves).
pub fn datetime_8601(text: &str) -> (r: Option<CalendarInstant>)
    ensures
        r == parse_iso_datetime_seq(text@),
        r matches Some(i) ==> crate::calendar::instant_valid(i),
{
    let cs = to_chars(text);
    let rep = replace_t_vec(&cs);
    let fields = split_from(&rep, 0, true);
    proof {
        assert(rep@.skip(0) =~= rep@);
    }
    if fields.len() == 2 {
        let p0 = trim_vec(&fields[0]);
        let p1 = trim_vec(&fields[1]);
        let d_opt = parse_iso_date_chars(&p0);
        let t_opt = parse_iso_time_chars(&p1);
        match (d_opt, t_opt) {
            (Some(d), Some(t)) => Some(CalendarInstant { date: d, time: t }),
            _ => None,
        }
    } else {
        None
    }
}

/// The Thai display text of canonical combined text, empty when the text
/// does not parse.
pub open spec fn datetime_str_th_seq(s: Seq<char>) -> Seq<char> {
    let fs = split_fields(replace_t(s), true);
    if fs.len() == 2 {
        if parse_iso_date_seq(trim_seq(fs[0])) is Some && parse_iso_time_seq(
            trim_seq(fs[1]),
        ) is Some {
            date_th_seq(parse_iso_date_seq(trim_seq(fs[0]))->0) + seq![' '] + time_hm_seq(
                parse_iso_time_seq(trim_seq(fs[1]))->0,
            )
        } else {
            Seq::<char>::empty()
        }
    } else {
        Seq::<char>::empty()
    }
}

/// Thai display text of canonical combined text, `1978-08-24 05:25:30`
/// becoming `24 ส.ค.2521 05:25 น.`; empty when the text does not parse.
pub fn datetime_str_th(text: &str) -> (r: String)
    ensures
        r@ == datetime_str_th_seq(text@),
{
    let cs = to_chars(text);
    let rep = replace_t_vec(&cs);
    let fields = split_from(&rep, 0, true);
    proof {
        assert(rep@.skip(0) =~= rep@);
    }
    if fields.len() == 2 {
        let p0 = trim_vec(&fields[0]);
        let p1 = trim_vec(&fields[1]);
        let d_opt = parse_iso_date_chars(&p0);
        let t_opt = parse_iso_time_chars(&p1);
        match (d_opt, t_opt) {
            (Some(d), Some(t)) => {
                let mut s = date_th(&d);
                s.append(" ");
                let ts = time_hm(&t);
                s.append(ts.as_str());
                proof {
                    reveal_strlit(" ");
                    assert(" "@ =~= seq![' ']);
                    assert(s@ =~= datetime_str_th_seq(text@));
                }
                s
            },
            _ => String::new(),
        }
    } else {
        String::new()
    }
}

/// Thai display date of canonical date text, `1978-08-24` becoming
/// `24 ส.ค.2521`; empty when the text does not parse.
pub fn date_str_th(text: &str) -> (r: String)
    ensures
        r@ == match parse_iso_date_seq(text@) {
            Some(d) => date_th_seq(d),
            None => Seq::<char>::empty(),
        },
{
    match date_8601(text) {
        Some(d) => date_th(&d),
        None => String::new(),
    }
}

/// Thai display time of canonical time text, `16:44:55.123` becoming
/// `16:44 น.`; empty when the text does not parse.
pub fn time_str_hm(text: &str) -> (r: String)
    ensures
        r@ == match parse_iso_time_seq(text@) {
            Some(t) => time_hm_seq(t),
            None => Seq::<char>::empty(),
        },
{
    match time_8601(text) {
        Some(t) => time_hm(&t),
        None => String::new(),
    }
}

/// Display-pattern text of canonical date text, `2022-01-30` becoming
/// `30/01/2565`; empty when the text does not parse. This is what the
/// input box shows for the host field's value.
pub fn date_pat_from_8601(text: &str) -> (r: String)
    ensures
        r@ == match parse_iso_date_seq(text@) {
            Some(d) => crate::render::date_pat_seq(d),
            None => Seq::<char>::empty(),
        },
{
    match date_8601(text) {
        Some(d) => crate::render::date_pat(&d),
        None => String::new(),
    }
}

/// Display-pattern text of canonical time text; empty when the text does
/// not parse.
pub fn time_pat_from_8601(text: &str) -> (r: String)
    ensures
        r@ == match parse_iso_time_seq(text@) {
            Some(t) => crate::render::time_pat_seq(t),
            None => Seq::<char>::empty(),
        },
{
    match time_8601(text) {
        Some(t) => crate::render::time_pat(&t),
        None => String::new(),
    }
}

/// Display-pattern text of canonical combined text, `2022-01-30T14:55`
/// becoming `30/01/2565 14:55`; empty when the text does not parse.
pub fn datetime_pat_from_8601(text: &str) -> (r: String)
    ensures
        r@ == match parse_iso_datetime_seq(text@) {
            Some(i) => crate::render::datetime_pat_seq(i),
            None => Seq::<char>::empty(),
        },
{
    match datetime_8601(text) {
        Some(i) => crate::render::datetime_pat(&i),
        None => String::new(),
    }
}

/// Thai display text of canonical combined text, relative to the current
/// day (`วันนี้` for the current day, `เมื่อวาน` for the day before);
/// empty when the text does not parse.
pub fn datetime_str_th_relative(text: &str) -> (r: String)
    ensures
        parse_iso_datetime_seq(text@) is None ==> r@ == Seq::<char>::empty(),
        parse_iso_datetime_seq(text@) matches Some(i) ==> exists|day: Seq<char>|
            r@ == day + seq![' '] + time_hm_seq(i.time) && (day == "วันนี้"@ || day
                == "เมื่อวาน"@ || day == date_th_seq(i.date)),
{
    let dt = datetime_8601(text);
    datetime_th_opt_relative(&dt)
}

} // verus!
