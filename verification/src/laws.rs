//! Round-trip laws of the text codec: rendering a value in the
//! Buddhist-era display pattern and parsing it back yields the value
//! itself, for every valid date, time and combined instant; the same
//! holds for the canonical host-field text.

use vstd::prelude::*;
use crate::calendar::date_valid;
use crate::calendar::instant_valid;
use crate::calendar::time_valid;
use crate::calendar::CalendarDate;
use crate::calendar::CalendarInstant;
use crate::calendar::ClockTime;
use crate::chars::all_digits;
use crate::chars::digits_val;
use crate::chars::is_digit_char;
use crate::chars::is_sep_char;
use crate::chars::is_ws_char;
use crate::chars::lemma_num_str_digits;
use crate::chars::num_str;
use crate::chars::pad2;
use crate::chars::pad4;
use crate::iso::iso_rest_ok;
use crate::iso::parse_iso_date_seq;
use crate::iso::parse_iso_time_seq;
use crate::parse::contains_sep;
use crate::parse::field_val;
use crate::parse::is_split_char;
use crate::parse::lemma_first_split_index_is;
use crate::parse::lemma_leading_ws_is;
use crate::parse::lemma_trailing_ws_is;
use crate::parse::parse_date_seq;
use crate::parse::parse_datetime_seq;
use crate::parse::parse_time_seq;
use crate::parse::split_fields;
use crate::parse::trim_seq;
use crate::render::date_pat_seq;
use crate::render::datetime_pat_seq;
use crate::render::iso_date_seq;
use crate::render::iso_time_seq;
use crate::render::time_pat_seq;

verus! {

/// No character of `s` is a splitting character.
pub open spec fn no_split_chars(s: Seq<char>, by_space: bool) -> bool {
    forall|i: int| 0 <= i < s.len() ==> !is_split_char(#[trigger] s[i], by_space)
}

/// No character of `s` is whitespace.
pub open spec fn no_ws_chars(s: Seq<char>) -> bool {
    forall|i: int| 0 <= i < s.len() ==> !is_ws_char(#[trigger] s[i])
}

/// A digit is neither a field separator, nor a space, nor whitespace.
proof fn lemma_digit_class(c: char)
    requires
        is_digit_char(c),
    ensures
        !is_sep_char(c),
        !is_ws_char(c),
        c != ' ',
        c != 'T',
{
}

/// A leading zero does not change a digit run's value.
proof fn lemma_zero_prefix_val(s: Seq<char>)
    requires
        all_digits(s),
    ensures
        digits_val(seq!['0'] + s) == digits_val(s),
    decreases s.len(),
{
    if s.len() == 0 {
        assert(seq!['0'] + s =~= seq!['0']);
        assert((seq!['0']).drop_last() =~= Seq::<char>::empty());
        assert(digits_val(Seq::<char>::empty()) == 0);
    } else {
        assert((seq!['0'] + s).drop_last() =~= seq!['0'] + s.drop_last());
        assert((seq!['0'] + s).last() == s.last());
        assert(all_digits(s.drop_last()));
        lemma_zero_prefix_val(s.drop_last());
    }
}

/// Length of the decimal rendering, for numbers below ten thousand.
proof fn lemma_num_str_len(n: int)
    requires
        0 <= n < 10000,
    ensures
        n < 10 ==> num_str(n).len() == 1,
        10 <= n < 100 ==> num_str(n).len() == 2,
        100 <= n < 1000 ==> num_str(n).len() == 3,
        1000 <= n ==> num_str(n).len() == 4,
    decreases n,
{
    if n >= 10 {
        lemma_num_str_len(n / 10);
    }
}

/// The two-character padded rendering is a digit run of length two that
/// reads back as the number.
proof fn lemma_pad2_facts(n: int)
    requires
        0 <= n < 100,
    ensures
        all_digits(pad2(n)),
        pad2(n).len() == 2,
        digits_val(pad2(n)) == n,
{
    lemma_num_str_digits(n);
    lemma_num_str_len(n);
    if n < 10 {
        assert(all_digits(seq!['0'] + num_str(n)));
        lemma_zero_prefix_val(num_str(n));
    }
}

/// The four-character padded rendering is a digit run of length four
/// that reads back as the number.
proof fn lemma_pad4_facts(n: int)
    requires
        0 <= n < 10000,
    ensures
        all_digits(pad4(n)),
        pad4(n).len() == 4,
        digits_val(pad4(n)) == n,
{
    lemma_num_str_digits(n);
    lemma_num_str_len(n);
    if n < 10 {
        assert(pad4(n) =~= seq!['0'] + (seq!['0'] + (seq!['0'] + num_str(n))));
        assert(all_digits(seq!['0'] + num_str(n)));
        lemma_zero_prefix_val(num_str(n));
        assert(all_digits(seq!['0'] + (seq!['0'] + num_str(n))));
        lemma_zero_prefix_val(seq!['0'] + num_str(n));
        lemma_zero_prefix_val(seq!['0'] + (seq!['0'] + num_str(n)));
    } else if n < 100 {
        assert(pad4(n) =~= seq!['0'] + (seq!['0'] + num_str(n)));
        assert(all_digits(seq!['0'] + num_str(n)));
        lemma_zero_prefix_val(num_str(n));
        lemma_zero_prefix_val(seq!['0'] + num_str(n));
    } else if n < 1000 {
        lemma_zero_prefix_val(num_str(n));
    }
}

/// Splitting a sequence that opens with a separator-free field: the
/// field comes off, and the rest splits on its own.
proof fn lemma_split_step(a: Seq<char>, sep: char, b: Seq<char>, by_space: bool)
    requires
        no_split_chars(a, by_space),
        is_split_char(sep, by_space),
    ensures
        split_fields(a + seq![sep] + b, by_space) == seq![a] + split_fields(b, by_space),
{
    let s = a + seq![sep] + b;
    assert forall|i: int| 0 <= i < a.len() implies !is_split_char(#[trigger] s[i], by_space) by {
        assert(s[i] == a[i]);
    }
    assert(s[a.len() as int] == sep);
    lemma_first_split_index_is(s, by_space, a.len() as int);
    assert(s.take(a.len() as int) =~= a);
    assert(s.skip(a.len() as int + 1) =~= b);
}

/// Splitting a sequence without splitting characters yields the sequence
/// as its only field.
proof fn lemma_split_whole(a: Seq<char>, by_space: bool)
    requires
        no_split_chars(a, by_space),
    ensures
        split_fields(a, by_space) == seq![a],
{
    lemma_first_split_index_is(a, by_space, a.len() as int);
}

/// Trimming changes nothing on text without whitespace.
proof fn lemma_trim_id(s: Seq<char>)
    requires
        no_ws_chars(s),
    ensures
        trim_seq(s) == s,
{
    if s.len() == 0 {
        lemma_leading_ws_is(s, 0);
        assert(trim_seq(s) =~= s);
    } else {
        lemma_leading_ws_is(s, 0);
        lemma_trailing_ws_is(s, 0);
        assert(trim_seq(s) =~= s);
    }
}

/// A non-empty digit run is a numeric field denoting its own value.
proof fn lemma_digit_field(s: Seq<char>, cap: int)
    requires
        all_digits(s),
        s.len() > 0,
        digits_val(s) <= cap,
    ensures
        field_val(s, cap) == Some(digits_val(s)),
{
    assert forall|i: int| 0 <= i < s.len() implies !is_ws_char(#[trigger] s[i]) by {
        lemma_digit_class(s[i]);
    }
    lemma_trim_id(s);
}

/// Rendering a date in the display pattern and parsing it back, against
/// any current year, yields the date itself.
pub proof fn lemma_date_pattern_round_trip(d: CalendarDate, now_year: int)
    requires
        date_valid(d),
    ensures
        parse_date_seq(date_pat_seq(d), now_year) == Some(d),
{
    let day = pad2(d.day as int);
    let mon = pad2(d.month as int);
    let yr = num_str(d.year + 543);
    let s = date_pat_seq(d);
    lemma_pad2_facts(d.day as int);
    lemma_pad2_facts(d.month as int);
    lemma_num_str_digits(d.year + 543);

    // the pattern contains a separator
    assert(s[2] == '/');
    assert(contains_sep(s));

    // it splits into exactly the three rendered fields
    assert forall|i: int| 0 <= i < day.len() implies !is_split_char(#[trigger] day[i], false) by {
        lemma_digit_class(day[i]);
    }
    assert forall|i: int| 0 <= i < mon.len() implies !is_split_char(#[trigger] mon[i], false) by {
        lemma_digit_class(mon[i]);
    }
    assert forall|i: int| 0 <= i < yr.len() implies !is_split_char(#[trigger] yr[i], false) by {
        lemma_digit_class(yr[i]);
    }
    assert(s =~= day + seq!['/'] + (mon + seq!['/'] + yr));
    lemma_split_step(day, '/', mon + seq!['/'] + yr, false);
    lemma_split_step(mon, '/', yr, false);
    lemma_split_whole(yr, false);
    let fs = split_fields(s, false);
    assert(fs =~= seq![day, mon, yr]);

    // the three fields read back as day, month and Buddhist-era year
    lemma_digit_field(day, 255);
    lemma_digit_field(mon, 255);
    lemma_digit_field(yr, 9999999);
    assert(field_val(fs[0], 255) == Some(d.day as int));
    assert(field_val(fs[1], 255) == Some(d.month as int));
    assert(field_val(fs[2], 9999999) == Some(d.year + 543));

    // the year is above 543, so it converts back exactly; the month slot
    // is within range, so the slots do not swap
    assert(parse_date_seq(s, now_year) == Some(
        CalendarDate { year: d.year, month: d.month, day: d.day },
    ));
    assert(CalendarDate { year: d.year, month: d.month, day: d.day } == d);
}

/// Rendering a time in the display pattern and parsing it back yields
/// the time itself.
pub proof fn lemma_time_pattern_round_trip(t: ClockTime)
    requires
        time_valid(t),
    ensures
        parse_time_seq(time_pat_seq(t)) == Some(t),
{
    let hh = pad2(t.hour as int);
    let mm = pad2(t.minute as int);
    let s = time_pat_seq(t);
    lemma_pad2_facts(t.hour as int);
    lemma_pad2_facts(t.minute as int);
    assert(s[2] == ':');
    assert(contains_sep(s));
    assert forall|i: int| 0 <= i < hh.len() implies !is_split_char(#[trigger] hh[i], false) by {
        lemma_digit_class(hh[i]);
    }
    assert forall|i: int| 0 <= i < mm.len() implies !is_split_char(#[trigger] mm[i], false) by {
        lemma_digit_class(mm[i]);
    }
    assert(s =~= hh + seq![':'] + mm);
    lemma_split_step(hh, ':', mm, false);
    lemma_split_whole(mm, false);
    let fs = split_fields(s, false);
    assert(fs =~= seq![hh, mm]);
    lemma_digit_field(hh, 255);
    lemma_digit_field(mm, 255);
    assert(parse_time_seq(s) == Some(ClockTime { hour: t.hour, minute: t.minute }));
    assert(ClockTime { hour: t.hour, minute: t.minute } == t);
}

/// The display pattern of a date holds no space, no whitespace and no `T`.
proof fn lemma_date_pat_classes(d: CalendarDate)
    requires
        date_valid(d),
    ensures
        no_split_chars(date_pat_seq(d), true),
        no_ws_chars(date_pat_seq(d)),
        forall|i: int| 0 <= i < date_pat_seq(d).len() ==> #[trigger] date_pat_seq(d)[i] != 'T',
{
    let day = pad2(d.day as int);
    let mon = pad2(d.month as int);
    let yr = num_str(d.year + 543);
    let s = date_pat_seq(d);
    lemma_pad2_facts(d.day as int);
    lemma_pad2_facts(d.month as int);
    lemma_num_str_digits(d.year + 543);
    assert forall|i: int| 0 <= i < s.len() implies !is_split_char(#[trigger] s[i], true)
        && !is_ws_char(s[i]) && s[i] != 'T' by {
        if i < 2 {
            assert(s[i] == day[i]);
            lemma_digit_class(day[i]);
        } else if i == 2 {
            assert(s[i] == '/');
        } else if i < 5 {
            assert(s[i] == mon[i - 3]);
            lemma_digit_class(mon[i - 3]);
        } else if i == 5 {
            assert(s[i] == '/');
        } else {
            assert(s[i] == yr[i - 6]);
            lemma_digit_class(yr[i - 6]);
        }
    }
}

/// The display pattern of a time holds no space, no whitespace and no `T`.
proof fn lemma_time_pat_classes(t: ClockTime)
    requires
        time_valid(t),
    ensures
        no_split_chars(time_pat_seq(t), true),
        no_ws_chars(time_pat_seq(t)),
        forall|i: int| 0 <= i < time_pat_seq(t).len() ==> #[trigger] time_pat_seq(t)[i] != 'T',
{
    let hh = pad2(t.hour as int);
    let mm = pad2(t.minute as int);
    let s = time_pat_seq(t);
    lemma_pad2_facts(t.hour as int);
    lemma_pad2_facts(t.minute as int);
    assert forall|i: int| 0 <= i < s.len() implies !is_split_char(#[trigger] s[i], true)
        && !is_ws_char(s[i]) && s[i] != 'T' by {
        if i < 2 {
            assert(s[i] == hh[i]);
            lemma_digit_class(hh[i]);
        } else if i == 2 {
            assert(s[i] == ':');
        } else {
            assert(s[i] == mm[i - 3]);
            lemma_digit_class(mm[i - 3]);
        }
    }
}

/// Rendering a combined instant in the display pattern and parsing it
/// back, against any current year, yields the instant itself.
pub proof fn lemma_datetime_pattern_round_trip(i: CalendarInstant, now_year: int)
    requires
        instant_valid(i),
    ensures
        parse_datetime_seq(datetime_pat_seq(i), now_year) == Some(i),
{
    let dp = date_pat_seq(i.date);
    let tp = time_pat_seq(i.time);
    let s = datetime_pat_seq(i);
    lemma_date_pat_classes(i.date);
    lemma_time_pat_classes(i.time);
    assert(s =~= dp + seq![' '] + tp);
    // the pattern holds no `T`, so the boundary replacement is identity
    let rep = crate::chars::replace_t(s);
    assert forall|j: int| 0 <= j < s.len() implies rep[j] == s[j] by {
        if j < dp.len() {
            assert(s[j] == dp[j]);
        } else if j == dp.len() {
            assert(s[j] == ' ');
        } else {
            assert(s[j] == tp[j - dp.len() - 1]);
        }
    }
    assert(rep =~= s);
    lemma_split_step(dp, ' ', tp, true);
    lemma_split_whole(tp, true);
    let fs = split_fields(s, true);
    assert(fs =~= seq![dp, tp]);
    lemma_trim_id(dp);
    lemma_trim_id(tp);
    lemma_date_pattern_round_trip(i.date, now_year);
    lemma_time_pattern_round_trip(i.time);
    assert(parse_datetime_seq(s, now_year) == Some(
        CalendarInstant { date: i.date, time: i.time },
    ));
    assert(CalendarInstant { date: i.date, time: i.time } == i);
}

/// Rendering a date as canonical text and parsing it back yields the
/// date itself.
pub proof fn lemma_iso_date_round_trip(d: CalendarDate)
    requires
        date_valid(d),
    ensures
        parse_iso_date_seq(iso_date_seq(d)) == Some(d),
{
    let yr = pad4(d.year as int);
    let mon = pad2(d.month as int);
    let day = pad2(d.day as int);
    let s = iso_date_seq(d);
    lemma_pad4_facts(d.year as int);
    lemma_pad2_facts(d.month as int);
    lemma_pad2_facts(d.day as int);
    assert(s.len() == 10);
    assert(s[4] == '-');
    assert(s[7] == '-');
    assert(s.subrange(0, 4) =~= yr);
    assert(s.subrange(5, 7) =~= mon);
    assert(s.subrange(8, 10) =~= day);
    assert(parse_iso_date_seq(s) == Some(
        CalendarDate { year: d.year, month: d.month, day: d.day },
    ));
    assert(CalendarDate { year: d.year, month: d.month, day: d.day } == d);
}

/// Canonical date text holds only digits and dashes.
proof fn lemma_iso_date_classes(d: CalendarDate)
    requires
        date_valid(d),
    ensures
        no_split_chars(iso_date_seq(d), true),
        no_ws_chars(iso_date_seq(d)),
        forall|i: int| 0 <= i < iso_date_seq(d).len() ==> #[trigger] iso_date_seq(d)[i] != 'T',
{
    let yr = pad4(d.year as int);
    let mon = pad2(d.month as int);
    let day = pad2(d.day as int);
    let s = iso_date_seq(d);
    lemma_pad4_facts(d.year as int);
    lemma_pad2_facts(d.month as int);
    lemma_pad2_facts(d.day as int);
    assert forall|i: int| 0 <= i < s.len() implies !is_split_char(#[trigger] s[i], true)
        && !is_ws_char(s[i]) && s[i] != 'T' by {
        if i < 4 {
            assert(s[i] == yr[i]);
            lemma_digit_class(yr[i]);
        } else if i == 4 {
            assert(s[i] == '-');
        } else if i < 7 {
            assert(s[i] == mon[i - 5]);
            lemma_digit_class(mon[i - 5]);
        } else if i == 7 {
            assert(s[i] == '-');
        } else {
            assert(s[i] == day[i - 8]);
            lemma_digit_class(day[i - 8]);
        }
    }
}

/// Canonical time text holds only digits and a colon.
proof fn lemma_iso_time_classes(t: ClockTime)
    requires
        time_valid(t),
    ensures
        no_split_chars(iso_time_seq(t), true),
        no_ws_chars(iso_time_seq(t)),
        forall|i: int| 0 <= i < iso_time_seq(t).len() ==> #[trigger] iso_time_seq(t)[i] != 'T',
{
    let hh = pad2(t.hour as int);
    let mm = pad2(t.minute as int);
    let s = iso_time_seq(t);
    lemma_pad2_facts(t.hour as int);
    lemma_pad2_facts(t.minute as int);
    assert forall|i: int| 0 <= i < s.len() implies !is_split_char(#[trigger] s[i], true)
        && !is_ws_char(s[i]) && s[i] != 'T' by {
        if i < 2 {
            assert(s[i] == hh[i]);
            lemma_digit_class(hh[i]);
        } else if i == 2 {
            assert(s[i] == ':');
        } else {
            assert(s[i] == mm[i - 3]);
            lemma_digit_class(mm[i - 3]);
        }
    }
}

/// Rendering a combined instant as canonical text and parsing it back
/// yields the instant itself.
pub proof fn lemma_iso_datetime_round_trip(i: CalendarInstant)
    requires
        instant_valid(i),
    ensures
        crate::iso::parse_iso_datetime_seq(crate::render::iso_datetime_seq(i)) == Some(i),
{
    let a = iso_date_seq(i.date);
    let b = iso_time_seq(i.time);
    let s = crate::render::iso_datetime_seq(i);
    lemma_iso_date_classes(i.date);
    lemma_iso_time_classes(i.time);
    lemma_pad4_facts(i.date.year as int);
    lemma_pad2_facts(i.date.month as int);
    lemma_pad2_facts(i.date.day as int);
    let rep = crate::chars::replace_t(s);
    assert forall|j: int| 0 <= j < s.len() implies rep[j] == (a + seq![' '] + b)[j] by {
        if j < a.len() {
            assert(s[j] == a[j]);
        } else if j == a.len() {
            assert(s[j] == 'T');
        } else {
            assert(s[j] == b[j - a.len() - 1]);
        }
    }
    assert(rep =~= a + seq![' '] + b);
    lemma_split_step(a, ' ', b, true);
    lemma_split_whole(b, true);
    let fs = split_fields(rep, true);
    assert(fs =~= seq![a, b]);
    lemma_trim_id(a);
    lemma_trim_id(b);
    lemma_iso_date_round_trip(i.date);
    lemma_iso_time_round_trip(i.time);
    assert(crate::iso::parse_iso_datetime_seq(s) == Some(
        CalendarInstant { date: i.date, time: i.time },
    ));
    assert(CalendarInstant { date: i.date, time: i.time } == i);
}

/// Rendering a time as canonical text and parsing it back yields the
/// time itself.
pub proof fn lemma_iso_time_round_trip(t: ClockTime)
    requires
        time_valid(t),
    ensures
        parse_iso_time_seq(iso_time_seq(t)) == Some(t),
{
    let hh = pad2(t.hour as int);
    let mm = pad2(t.minute as int);
    let s = iso_time_seq(t);
    lemma_pad2_facts(t.hour as int);
    lemma_pad2_facts(t.minute as int);
    assert(s.len() == 5);
    assert(s[2] == ':');
    assert(s.subrange(0, 2) =~= hh);
    assert(s.subrange(3, 5) =~= mm);
    assert(s.skip(5).len() == 0);
    assert(iso_rest_ok(s.skip(5)));
    assert(parse_iso_time_seq(s) == Some(ClockTime { hour: t.hour, minute: t.minute }));
    assert(ClockTime { hour: t.hour, minute: t.minute } == t);
}

} // verus!
