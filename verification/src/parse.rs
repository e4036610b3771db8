//! Parsing user text into calendar values.
//!
//! Two grammars live here. The permissive display grammar takes what a
//! person types: either separator-delimited fields (`/`, `-`, `.` and `:`
//! are interchangeable) or a bare digit run whose length decides how it is
//! cut into fields, with Buddhist-era years, two-digit-year century
//! inference against "now", and day/month slot swapping when the month
//! slot overflows. The canonical grammar takes the machine text exchanged
//! with the host field (`YYYY-MM-DD`, `HH:MM[:SS[.frac]][Z|±HH[:MM]]` and
//! the combined form); seconds, fractions and offsets are validated and
//! then discarded, since stored times are normalized to whole minutes.
//!
//! Every parse function is total and signals failure only by returning
//! nothing.

use vstd::prelude::*;
use crate::calendar::ymd_valid;
use crate::calendar::CalendarDate;
use crate::calendar::CalendarInstant;
use crate::calendar::ClockTime;
use crate::chars::all_digits;
use crate::chars::digit_val;
use crate::chars::digits_val;
use crate::chars::is_digit_char;
use crate::chars::is_sep_char;
use crate::chars::is_ws_char;
use crate::chars::to_chars;
use crate::clock::now;

verus! {

/// Whether position 0 of `s` starts a field boundary for the chosen
/// splitting class: the space character alone, or the field separators.
pub open spec fn is_split_char(c: char, by_space: bool) -> bool {
    if by_space {
        c == ' '
    } else {
        is_sep_char(c)
    }
}

/// Index of the first splitting character of `s`, or `s.len()` if none.
pub open spec fn first_split_index(s: Seq<char>, by_space: bool) -> int
    decreases s.len(),
{
    if s.len() == 0 {
        0
    } else if is_split_char(s[0], by_space) {
        0
    } else {
        1 + first_split_index(s.drop_first(), by_space)
    }
}

/// The fields of `s` between splitting characters, in order; empty fields
/// are kept, so `n` splitting characters always yield `n + 1` fields.
pub open spec fn split_fields(s: Seq<char>, by_space: bool) -> Seq<Seq<char>>
    decreases s.len(),
{
    let i = first_split_index(s, by_space);
    if 0 <= i < s.len() {
        seq![s.take(i)] + split_fields(s.skip(i + 1), by_space)
    } else {
        seq![s]
    }
}

/// Number of leading whitespace characters of `s`.
pub open spec fn leading_ws(s: Seq<char>) -> int
    decreases s.len(),
{
    if s.len() > 0 && is_ws_char(s[0]) {
        1 + leading_ws(s.drop_first())
    } else {
        0
    }
}

/// Number of trailing whitespace characters of `s`.
pub open spec fn trailing_ws(s: Seq<char>) -> int
    decreases s.len(),
{
    if s.len() > 0 && is_ws_char(s.last()) {
        1 + trailing_ws(s.drop_last())
    } else {
        0
    }
}

/// `s` without leading and trailing whitespace.
pub open spec fn trim_seq(s: Seq<char>) -> Seq<char> {
    if leading_ws(s) == s.len() {
        Seq::<char>::empty()
    } else {
        s.subrange(leading_ws(s), s.len() - trailing_ws(s))
    }
}

/// Number of leading decimal digits of `s`.
pub open spec fn leading_digits(s: Seq<char>) -> int
    decreases s.len(),
{
    if s.len() > 0 && is_digit_char(s[0]) {
        1 + leading_digits(s.drop_first())
    } else {
        0
    }
}

/// The decimal digits of `s`, other characters dropped.
pub open spec fn digits_only(s: Seq<char>) -> Seq<char> {
    s.filter(|c: char| is_digit_char(c))
}

/// `s` holds at least one field separator.
pub open spec fn contains_sep(s: Seq<char>) -> bool {
    exists|i: int| 0 <= i < s.len() && is_sep_char(#[trigger] s[i])
}

/// `t` without a single leading plus sign, if one is there: numeric
/// fields tolerate the explicit sign an integer literal may carry.
pub open spec fn strip_plus(t: Seq<char>) -> Seq<char> {
    if t.len() > 0 && t[0] == '+' {
        t.drop_first()
    } else {
        t
    }
}

/// The number denoted by a numeric field: the field trimmed of
/// whitespace, minus an optional leading plus sign, must be a non-empty
/// digit run whose value is at most `cap`.
pub open spec fn field_val(s: Seq<char>, cap: int) -> Option<int> {
    let t = strip_plus(trim_seq(s));
    if t.len() > 0 && all_digits(t) && digits_val(t) <= cap {
        Some(digits_val(t))
    } else {
        None
    }
}

/// Powers of ten.
pub open spec fn pow10(n: int) -> int
    decreases n,
{
    if n <= 0 {
        1
    } else {
        10 * pow10(n - 1)
    }
}

/// A digit run's value is below ten to its length.
pub(crate) proof fn lemma_digits_val_upper(s: Seq<char>)
    requires
        all_digits(s),
    ensures
        0 <= digits_val(s) < pow10(s.len() as int),
    decreases s.len(),
{
    if s.len() == 0 {
    } else {
        assert(all_digits(s.drop_last()));
        lemma_digits_val_upper(s.drop_last());
    }
}

/// `first_split_index` is the position of the first splitting character.
pub(crate) proof fn lemma_first_split_index_is(s: Seq<char>, by_space: bool, k: int)
    requires
        0 <= k <= s.len(),
        forall|i: int| 0 <= i < k ==> !is_split_char(#[trigger] s[i], by_space),
        k == s.len() || is_split_char(s[k], by_space),
    ensures
        first_split_index(s, by_space) == k,
    decreases k,
{
    if k == 0 {
    } else {
        assert(!is_split_char(s[0], by_space));
        assert forall|i: int| 0 <= i < k - 1 implies !is_split_char(
            #[trigger] s.drop_first()[i],
            by_space,
        ) by {
            assert(s.drop_first()[i] == s[i + 1]);
        }
        if k - 1 < s.drop_first().len() {
            assert(s.drop_first()[k - 1] == s[k]);
        }
        lemma_first_split_index_is(s.drop_first(), by_space, k - 1);
    }
}

/// `leading_ws` is the position of the first non-whitespace character.
pub(crate) proof fn lemma_leading_ws_is(s: Seq<char>, k: int)
    requires
        0 <= k <= s.len(),
        forall|i: int| 0 <= i < k ==> is_ws_char(#[trigger] s[i]),
        k == s.len() || !is_ws_char(s[k]),
    ensures
        leading_ws(s) == k,
    decreases k,
{
    if k == 0 {
    } else {
        assert(is_ws_char(s[0]));
        assert forall|i: int| 0 <= i < k - 1 implies is_ws_char(#[trigger] s.drop_first()[i]) by {
            assert(s.drop_first()[i] == s[i + 1]);
        }
        if k - 1 < s.drop_first().len() {
            assert(s.drop_first()[k - 1] == s[k]);
        }
        lemma_leading_ws_is(s.drop_first(), k - 1);
    }
}

/// `trailing_ws` is the distance from the end to the last non-whitespace
/// character.
pub(crate) proof fn lemma_trailing_ws_is(s: Seq<char>, k: int)
    requires
        0 <= k <= s.len(),
        forall|i: int| s.len() - k <= i < s.len() ==> is_ws_char(#[trigger] s[i]),
        k == s.len() || !is_ws_char(s[s.len() - k - 1]),
    ensures
        trailing_ws(s) == k,
    decreases k,
{
    if k == 0 {
    } else {
        assert(is_ws_char(s.last()));
        assert forall|i: int|
            s.drop_last().len() - (k - 1) <= i < s.drop_last().len() implies is_ws_char(
            #[trigger] s.drop_last()[i],
        ) by {
            assert(s.drop_last()[i] == s[i]);
        }
        if k - 1 < s.drop_last().len() {
            assert(s.drop_last()[s.drop_last().len() - (k - 1) - 1] == s[s.len() - k - 1]);
        }
        lemma_trailing_ws_is(s.drop_last(), k - 1);
    }
}

/// `leading_digits` is the position of the first non-digit character.
pub(crate) proof fn lemma_leading_digits_is(s: Seq<char>, k: int)
    requires
        0 <= k <= s.len(),
        forall|i: int| 0 <= i < k ==> is_digit_char(#[trigger] s[i]),
        k == s.len() || !is_digit_char(s[k]),
    ensures
        leading_digits(s) == k,
    decreases k,
{
    if k == 0 {
    } else {
        assert(is_digit_char(s[0]));
        assert forall|i: int| 0 <= i < k - 1 implies is_digit_char(
            #[trigger] s.drop_first()[i],
        ) by {
            assert(s.drop_first()[i] == s[i + 1]);
        }
        if k - 1 < s.drop_first().len() {
            assert(s.drop_first()[k - 1] == s[k]);
        }
        lemma_leading_digits_is(s.drop_first(), k - 1);
    }
}

/// Copy of `v[from..to]`.
pub(crate) fn subvec(v: &Vec<char>, from: usize, to: usize) -> (r: Vec<char>)
    requires
        from <= to <= v@.len(),
    ensures
        r@ == v@.subrange(from as int, to as int),
{
    let mut r: Vec<char> = Vec::new();
    let mut k: usize = from;
    while k < to
        invariant
            from <= k <= to <= v@.len(),
            r@ =~= v@.subrange(from as int, k as int),
        decreases to - k,
    {
        r.push(v[k]);
        k += 1;
        proof {
            assert(r@ =~= v@.subrange(from as int, k as int));
        }
    }
    r
}

/// Whether `v` holds a field separator.
pub(crate) fn has_sep(v: &Vec<char>) -> (r: bool)
    ensures
        r == contains_sep(v@),
{
    let mut k: usize = 0;
    while k < v.len()
        invariant
            0 <= k <= v@.len(),
            forall|i: int| 0 <= i < k ==> !is_sep_char(#[trigger] v@[i]),
        decreases v@.len() - k,
    {
        let c = v[k];
        if c == '/' || c == '-' || c == '.' || c == ':' {
            return true;
        }
        k += 1;
    }
    false
}

/// The decimal digits of `v`, other characters dropped.
pub(crate) fn filter_digits(v: &Vec<char>) -> (r: Vec<char>)
    ensures
        r@ == digits_only(v@),
        all_digits(r@),
{
    let mut r: Vec<char> = Vec::new();
    let mut k: usize = 0;
    while k < v.len()
        invariant
            0 <= k <= v@.len(),
            r@ =~= v@.take(k as int).filter(|c: char| is_digit_char(c)),
            all_digits(r@),
        decreases v@.len() - k,
    {
        let c = v[k];
        proof {
            assert(v@.take(k as int + 1).drop_last() =~= v@.take(k as int));
            assert(v@.take(k as int + 1).last() == v@[k as int]);
            reveal_with_fuel(Seq::filter, 2);
        }
        if '0' <= c && c <= '9' {
            r.push(c);
        }
        k += 1;
    }
    proof {
        assert(v@.take(v@.len() as int) =~= v@);
    }
    r
}

/// Value of the all-digit run `v[from..to]`, at most four digits long.
pub(crate) fn digits_value(v: &Vec<char>, from: usize, to: usize) -> (r: u32)
    requires
        from <= to <= v@.len(),
        to - from <= 4,
        all_digits(v@.subrange(from as int, to as int)),
    ensures
        r == digits_val(v@.subrange(from as int, to as int)),
        r < pow10(to - from as int),
        r <= 9999,
{
    proof {
        lemma_digits_val_upper(v@.subrange(from as int, to as int));
        lemma_pow10_small();
        lemma_pow10_monotone(to - from as int, 4);
    }
    let mut acc: u32 = 0;
    let mut k: usize = from;
    while k < to
        invariant
            from <= k <= to <= v@.len(),
            to - from <= 4,
            all_digits(v@.subrange(from as int, to as int)),
            acc == digits_val(v@.subrange(from as int, k as int)),
            acc < pow10(k - from as int),
            pow10(to - from as int) <= 10000,
        decreases to - k,
    {
        let c = v[k];
        proof {
            let sub = v@.subrange(from as int, to as int);
            assert(sub[k - from as int] == v@[k as int]);
            assert(v@.subrange(from as int, k as int + 1).drop_last() =~= v@.subrange(
                from as int,
                k as int,
            ));
            assert(v@.subrange(from as int, k as int + 1).last() == v@[k as int]);
            lemma_pow10_monotone(k + 1 - from as int, to - from as int);
        }
        acc = acc * 10 + (c as u32 - 48);
        k += 1;
    }
    acc
}

/// The small powers of ten spelled out.
pub(crate) proof fn lemma_pow10_small()
    ensures
        pow10(0) == 1,
        pow10(1) == 10,
        pow10(2) == 100,
        pow10(3) == 1000,
        pow10(4) == 10000,
{
    assert(pow10(0) == 1);
    assert(pow10(1) == 10);
    assert(pow10(2) == 100);
    assert(pow10(3) == 1000);
    assert(pow10(4) == 10000);
}

/// `pow10` grows with its argument.
pub(crate) proof fn lemma_pow10_monotone(a: int, b: int)
    requires
        0 <= a <= b,
    ensures
        pow10(a) <= pow10(b),
        pow10(a) >= 1,
    decreases b,
{
    if a < b {
        lemma_pow10_monotone(a, b - 1);
    } else {
        lemma_pow10_positive(a);
    }
}

/// `pow10` is positive.
pub(crate) proof fn lemma_pow10_positive(a: int)
    ensures
        pow10(a) >= 1,
    decreases a,
{
    if a > 0 {
        lemma_pow10_positive(a - 1);
    }
}

/// Numeric value of a field: trims whitespace and an optional leading
/// plus sign, then accepts a non-empty digit run whose value is at most
/// `cap`.
pub(crate) fn parse_field(piece: &Vec<char>, cap: u64) -> (r: Option<u64>)
    requires
        cap <= 100000000,
    ensures
        match r {
            Some(n) => field_val(piece@, cap as int) == Some(n as int),
            None => field_val(piece@, cap as int) is None,
        },
{
    let s = piece;
    let n = s.len();
    // leading whitespace
    let mut lo: usize = 0;
    while lo < n && is_ws(s[lo])
        invariant
            0 <= lo <= n == s@.len(),
            forall|i: int| 0 <= i < lo ==> is_ws_char(#[trigger] s@[i]),
        decreases n - lo,
    {
        lo += 1;
    }
    proof {
        lemma_leading_ws_is(s@, lo as int);
    }
    if lo == n {
        // all whitespace: the trimmed field is empty
        return None;
    }
    // trailing whitespace
    let mut hi: usize = n;
    while hi > lo && is_ws(s[hi - 1])
        invariant
            lo < hi <= n == s@.len(),
            lo < n,
            !is_ws_char(s@[lo as int]),
            forall|i: int| hi <= i < n ==> is_ws_char(#[trigger] s@[i]),
        decreases hi,
    {
        hi -= 1;
    }
    proof {
        assert(hi > lo);
        lemma_trailing_ws_is(s@, (n - hi) as int);
        assert(trim_seq(s@) == s@.subrange(lo as int, hi as int));
    }
    // an explicit leading plus sign is tolerated, as it is in an
    // integer literal
    let lo2: usize = if s[lo] == '+' {
        lo + 1
    } else {
        lo
    };
    let ghost t = strip_plus(trim_seq(s@));
    proof {
        assert(t =~= s@.subrange(lo2 as int, hi as int));
    }
    if lo2 == hi {
        // the field was just the sign: empty after stripping it
        return None;
    }
    // digit run value, stopping as soon as the cap is exceeded
    let mut acc: u64 = 0;
    let mut k: usize = lo2;
    while k < hi
        invariant
            lo2 <= k <= hi <= n == s@.len(),
            s@ == piece@,
            t == strip_plus(trim_seq(s@)),
            t == s@.subrange(lo2 as int, hi as int),
            t.len() > 0,
            forall|i: int| 0 <= i < k - lo2 ==> is_digit_char(#[trigger] t[i]),
            acc == digits_val(t.take(k - lo2 as int)),
            acc <= cap,
            cap <= 100000000,
        decreases hi - k,
    {
        let c = s[k];
        proof {
            assert(t[k - lo2 as int] == s@[k as int]);
            assert(t.take(k + 1 - lo2 as int).drop_last() =~= t.take(k - lo2 as int));
            assert(t.take(k + 1 - lo2 as int).last() == t[k - lo2 as int]);
        }
        if !('0' <= c && c <= '9') {
            // a non-digit inside the trimmed field: not a numeric field
            proof {
                assert(!is_digit_char(t[k - lo2 as int]));
                assert(!all_digits(t));
            }
            return None;
        }
        acc = acc * 10 + (c as u64 - 48);
        if acc > cap {
            // the run can only grow from here, so the cap stays exceeded
            proof {
                assert(acc == digits_val(t.take(k + 1 - lo2 as int)));
                if all_digits(t) {
                    crate::chars::lemma_digits_val_prefix_monotone(t, k + 1 - lo2 as int);
                    assert(digits_val(t) >= acc > cap);
                }
                assert(field_val(piece@, cap as int) is None);
            }
            return None;
        }
        k += 1;
    }
    proof {
        assert(t.take(hi - lo2 as int) =~= t);
        assert(all_digits(t));
    }
    Some(acc)
}

/// Whitespace accepted around a numeric field.
pub(crate) fn is_ws(c: char) -> (r: bool)
    ensures
        r == is_ws_char(c),
{
    c == ' ' || c == '\t' || c == '\n' || c == '\u{0B}' || c == '\u{0C}' || c == '\r' || c
        == '\u{85}' || c == '\u{A0}' || c == '\u{1680}' || ('\u{2000}' <= c && c <= '\u{200A}')
        || c == '\u{2028}' || c == '\u{2029}' || c == '\u{202F}' || c == '\u{205F}' || c
        == '\u{3000}'
}

/// The fields of `v[start..]` between splitting characters.
pub(crate) fn split_from(v: &Vec<char>, start: usize, by_space: bool) -> (r: Vec<Vec<char>>)
    requires
        start <= v@.len(),
    ensures
        r@.len() == split_fields(v@.skip(start as int), by_space).len(),
        forall|i: int|
            0 <= i < r@.len() ==> r@[i]@ == split_fields(v@.skip(start as int), by_space)[i],
    decreases v@.len() - start,
{
    let ghost s = v@.skip(start as int);
    let n = v.len();
    let mut j: usize = start;
    while j < n && !is_split(v[j], by_space)
        invariant
            start <= j <= n == v@.len(),
            forall|i: int| start <= i < j ==> !is_split_char(#[trigger] v@[i], by_space),
        decreases n - j,
    {
        j += 1;
    }
    proof {
        assert forall|i: int| 0 <= i < j - start implies !is_split_char(
            #[trigger] s[i],
            by_space,
        ) by {
            assert(s[i] == v@[start + i]);
        }
        if j < n {
            assert(s[j - start as int] == v@[j as int]);
        }
        lemma_first_split_index_is(s, by_space, j - start as int);
    }
    let piece = subvec(v, start, j);
    proof {
        assert(s.take(j - start as int) =~= v@.subrange(start as int, j as int));
    }
    if j == n {
        let mut r: Vec<Vec<char>> = Vec::new();
        proof {
            assert(s.take(j - start as int) =~= s);
        }
        r.push(piece);
        r
    } else {
        let rest = split_from(v, j + 1, by_space);
        proof {
            assert(v@.skip(j + 1) =~= s.skip(j + 1 - start as int));
        }
        let mut r: Vec<Vec<char>> = Vec::new();
        r.push(piece);
        let mut k: usize = 0;
        let ghost restlen = rest@.len();
        let mut rest = rest;
        while k < rest.len()
            invariant
                r@.len() == k + 1,
                rest@.len() == restlen,
                k <= restlen,
                r@[0]@ == s.take(first_split_index(s, by_space)),
                forall|i: int| 0 <= i < k ==> r@[i + 1]@ == #[trigger] rest@[i]@,
                forall|i: int|
                    0 <= i < rest@.len() ==> rest@[i]@ == split_fields(
                        s.skip(first_split_index(s, by_space) + 1),
                        by_space,
                    )[i],
            decreases rest@.len() - k,
        {
            let piece_k = rest[k].clone();
            proof {
                assert(piece_k@ == rest@[k as int]@);
            }
            r.push(piece_k);
            k += 1;
        }
        r
    }
}

/// Whether `c` is a splitting character for the chosen class.
pub(crate) fn is_split(c: char, by_space: bool) -> (r: bool)
    ensures
        r == is_split_char(c, by_space),
{
    if by_space {
        c == ' '
    } else {
        c == '/' || c == '-' || c == '.' || c == ':'
    }
}

/// Combines the day slot, month slot and year of the display grammar into
/// a date. The slots are read day-first; when the month slot overflows 12
/// while the day slot could be a month, the two slots swap, adopting
/// month/day order. A combination that is no real calendar day gives
/// nothing.
pub open spec fn date_from_fields(d: int, m: int, y: int) -> Option<CalendarDate> {
    if m > 12 && d < 13 {
        if ymd_valid(y, d, m) {
            Some(CalendarDate { year: y as i32, month: d as u8, day: m as u8 })
        } else {
            None
        }
    } else {
        if ymd_valid(y, m, d) {
            Some(CalendarDate { year: y as i32, month: m as u8, day: d as u8 })
        } else {
            None
        }
    }
}

/// The century bucket of "now": the Buddhist-era year of `now_year`
/// rounded down to a multiple of one hundred.
pub open spec fn be_century(now_year: int) -> int {
    ((now_year + 543) / 100) * 100
}

/// The display-grammar date denoted by `s`, against the current year
/// `now_year` for two-digit-year century inference.
///
/// With a separator present the first three fields are day, month and
/// year; a year above 543 is already Buddhist-era, a smaller one is
/// lifted into the current Buddhist century first. Without separators the
/// decimal digits of `s` form the fields: six or seven digits are cut as
/// day, month and two-digit year; eight or more as day, month and
/// four-digit year, trailing digits ignored, where a four-digit year
/// above 543 is Buddhist-era and a smaller one is taken as already
/// Gregorian.
pub open spec fn parse_date_seq(s: Seq<char>, now_year: int) -> Option<CalendarDate> {
    let decate = be_century(now_year);
    if contains_sep(s) {
        let fs = split_fields(s, false);
        if fs.len() > 2 {
            if field_val(fs[0], 255) is Some && field_val(fs[1], 255) is Some && field_val(
                fs[2],
                9999999,
            ) is Some {
                let d = field_val(fs[0], 255)->0;
                let m = field_val(fs[1], 255)->0;
                let y = field_val(fs[2], 9999999)->0;
                date_from_fields(
                    d,
                    m,
                    (if y > 543 {
                        y
                    } else {
                        y + decate
                    }) - 543,
                )
            } else {
                None
            }
        } else {
            None
        }
    } else {
        let c = digits_only(s);
        if 6 <= c.len() < 8 {
            date_from_fields(
                digits_val(c.subrange(0, 2)),
                digits_val(c.subrange(2, 4)),
                digits_val(c.subrange(4, 6)) + decate - 543,
            )
        } else if c.len() >= 8 {
            let y = digits_val(c.subrange(4, 8));
            date_from_fields(
                digits_val(c.subrange(0, 2)),
                digits_val(c.subrange(2, 4)),
                if y > 543 {
                    y - 543
                } else {
                    y
                },
            )
        } else {
            None
        }
    }
}

/// Combines an hour and a minute slot into a clock time; an hour above 23
/// or a minute above 59 gives nothing, never a clamped value.
pub open spec fn time_from_fields(h: Option<int>, m: Option<int>) -> Option<ClockTime> {
    if h is Some && m is Some && 0 <= h->0 < 24 && 0 <= m->0 < 60 {
        Some(ClockTime { hour: h->0 as u8, minute: m->0 as u8 })
    } else {
        None
    }
}

/// The display-grammar time denoted by `s`.
///
/// With a separator the first two fields are hour and minute. Without
/// one the digit count decides: four or more digits pair off as HHMM
/// (the rest ignored); three digits read the trailing pair as the minute
/// unless it exceeds 59 and the leading pair is a valid hour, in which
/// case they read as HH,M; two digits read as a whole hour when they
/// form 10..=23, else as H,M; one digit is an hour on the whole.
pub open spec fn parse_time_seq(s: Seq<char>) -> Option<ClockTime> {
    if contains_sep(s) {
        let fs = split_fields(s, false);
        if fs.len() > 1 {
            time_from_fields(field_val(fs[0], 255), field_val(fs[1], 255))
        } else {
            None
        }
    } else {
        let c = digits_only(s);
        if c.len() >= 4 {
            time_from_fields(
                Some(digits_val(c.subrange(0, 2))),
                Some(digits_val(c.subrange(2, 4))),
            )
        } else if c.len() == 3 {
            if digits_val(c.subrange(1, 3)) > 59 {
                if digits_val(c.subrange(0, 2)) < 24 {
                    time_from_fields(
                        Some(digits_val(c.subrange(0, 2))),
                        Some(digit_val(c[2])),
                    )
                } else {
                    None
                }
            } else {
                time_from_fields(Some(digit_val(c[0])), Some(digits_val(c.subrange(1, 3))))
            }
        } else if c.len() == 2 {
            if c[0] == '1' || (c[0] == '2' && (c[1] == '0' || c[1] == '1' || c[1] == '2' || c[1]
                == '3')) {
                time_from_fields(Some(digits_val(c.subrange(0, 2))), Some(0))
            } else {
                time_from_fields(Some(digit_val(c[0])), Some(digit_val(c[1])))
            }
        } else if c.len() == 1 {
            time_from_fields(Some(digit_val(c[0])), Some(0))
        } else {
            None
        }
    }
}

/// The display-grammar combined value: after replacing `T` by a space,
/// exactly one date half and one time half, both of which must parse.
pub open spec fn parse_datetime_seq(s: Seq<char>, now_year: int) -> Option<CalendarInstant> {
    let fs = split_fields(crate::chars::replace_t(s), true);
    if fs.len() == 2 {
        if parse_date_seq(trim_seq(fs[0]), now_year) is Some && parse_time_seq(
            trim_seq(fs[1]),
        ) is Some {
            Some(
                CalendarInstant {
                    date: parse_date_seq(trim_seq(fs[0]), now_year)->0,
                    time: parse_time_seq(trim_seq(fs[1]))->0,
                },
            )
        } else {
            None
        }
    } else {
        None
    }
}

/// `v[from..to]` consists of decimal digits.
pub(crate) fn range_digits(v: &Vec<char>, from: usize, to: usize) -> (r: bool)
    requires
        from <= to <= v@.len(),
    ensures
        r == all_digits(v@.subrange(from as int, to as int)),
{
    let mut k: usize = from;
    while k < to
        invariant
            from <= k <= to <= v@.len(),
            forall|i: int| 0 <= i < k - from ==> is_digit_char(#[trigger] v@.subrange(from as int, to as int)[i]),
        decreases to - k,
    {
        let c = v[k];
        proof {
            assert(v@.subrange(from as int, to as int)[k - from as int] == v@[k as int]);
        }
        if !('0' <= c && c <= '9') {
            return false;
        }
        k += 1;
    }
    true
}

/// `v` without leading and trailing whitespace.
pub(crate) fn trim_vec(v: &Vec<char>) -> (r: Vec<char>)
    ensures
        r@ == trim_seq(v@),
{
    let n = v.len();
    let mut lo: usize = 0;
    while lo < n && is_ws(v[lo])
        invariant
            0 <= lo <= n == v@.len(),
            forall|i: int| 0 <= i < lo ==> is_ws_char(#[trigger] v@[i]),
        decreases n - lo,
    {
        lo += 1;
    }
    proof {
        lemma_leading_ws_is(v@, lo as int);
    }
    if lo == n {
        return Vec::new();
    }
    let mut hi: usize = n;
    while hi > lo && is_ws(v[hi - 1])
        invariant
            lo < hi <= n == v@.len(),
            lo < n,
            !is_ws_char(v@[lo as int]),
            forall|i: int| hi <= i < n ==> is_ws_char(#[trigger] v@[i]),
        decreases hi,
    {
        hi -= 1;
    }
    proof {
        lemma_trailing_ws_is(v@, (n - hi) as int);
    }
    subvec(v, lo, hi)
}

/// Combines day, month and year slots into a date, swapping the slots
/// when the month slot overflows while the day slot could be a month.
fn make_date(d: u64, m: u64, y: i64) -> (r: Option<CalendarDate>)
    requires
        d <= 255,
        m <= 255,
        -600 <= y <= 20000000,
    ensures
        r == date_from_fields(d as int, m as int, y as int),
        r matches Some(x) ==> crate::calendar::date_valid(x),
{
    if m > 12 && d < 13 {
        CalendarDate::checked(y as i32, d as u8, m as u8)
    } else {
        if 1 <= m && m <= 12 {
            CalendarDate::checked(y as i32, m as u8, d as u8)
        } else {
            None
        }
    }
}

/// Combines hour and minute slots into a clock time.
fn make_time(h: Option<u64>, m: Option<u64>) -> (r: Option<ClockTime>)
    requires
        h matches Some(x) ==> x <= 255,
        m matches Some(x) ==> x <= 255,
    ensures
        r == time_from_fields(
            match h {
                Some(x) => Some(x as int),
                None => None,
            },
            match m {
                Some(x) => Some(x as int),
                None => None,
            },
        ),
        r matches Some(t) ==> crate::calendar::time_valid(t),
{
    match (h, m) {
        (Some(hh), Some(mm)) => ClockTime::checked(hh as u8, mm as u8),
        _ => None,
    }
}

/// Parses a display-grammar date from characters.
pub(crate) fn parse_date_chars(cs: &Vec<char>, now_year: i32) -> (r: Option<CalendarDate>)
    requires
        1 <= now_year <= 9999,
    ensures
        r == parse_date_seq(cs@, now_year as int),
        r matches Some(d) ==> crate::calendar::date_valid(d),
{
    let decate: i64 = (((now_year as i64) + 543) / 100) * 100;
    if has_sep(cs) {
        let fields = split_from(cs, 0, false);
        proof {
            assert(cs@.skip(0) =~= cs@);
        }
        if fields.len() > 2 {
            let d_opt = parse_field(&fields[0], 255);
            let m_opt = parse_field(&fields[1], 255);
            let y_opt = parse_field(&fields[2], 9999999);
            match (d_opt, m_opt, y_opt) {
                (Some(d), Some(m), Some(y)) => {
                    let y_adj: i64 = (if y > 543 {
                        y as i64
                    } else {
                        y as i64 + decate
                    }) - 543;
                    make_date(d, m, y_adj)
                },
                _ => None,
            }
        } else {
            None
        }
    } else {
        let c = filter_digits(cs);
        let len = c.len();
        if 6 <= len && len < 8 {
            let d = digits_value(&c, 0, 2);
            let m = digits_value(&c, 2, 4);
            let y = digits_value(&c, 4, 6);
            proof {
                lemma_pow10_small();
            }
            make_date(d as u64, m as u64, y as i64 + decate - 543)
        } else if len >= 8 {
            let d = digits_value(&c, 0, 2);
            let m = digits_value(&c, 2, 4);
            let y = digits_value(&c, 4, 8);
            proof {
                lemma_pow10_small();
            }
            let y_adj: i64 = if y > 543 {
                y as i64 - 543
            } else {
                y as i64
            };
            make_date(d as u64, m as u64, y_adj)
        } else {
            None
        }
    }
}

/// Parses a display-grammar date (`DD/MM/YYYY` with liberal separators,
/// or a bare digit run) against an explicit current year for century
/// inference of two-digit years.
pub fn date_from_pat_at(text: &str, now_year: i32) -> (r: Option<CalendarDate>)
    requires
        1 <= now_year <= 9999,
    ensures
        r == parse_date_seq(text@, now_year as int),
        r matches Some(d) ==> crate::calendar::date_valid(d),
{
    let cs = to_chars(text);
    parse_date_chars(&cs, now_year)
}

/// Parses a display-grammar date against the current UTC+7 year.
pub fn date_from_pat(text: &str) -> (r: Option<CalendarDate>)
    ensures
        exists|y: int|
            1 <= y <= 9999 && r == #[trigger] parse_date_seq(text@, y),
        r matches Some(d) ==> crate::calendar::date_valid(d),
{
    let n = now();
    let r = date_from_pat_at(text, n.date.year);
    proof {
        assert(r == parse_date_seq(text@, n.date.year as int));
    }
    r
}

/// Parses a display-grammar time from characters.
pub(crate) fn parse_time_chars(cs: &Vec<char>) -> (r: Option<ClockTime>)
    ensures
        r == parse_time_seq(cs@),
        r matches Some(t) ==> crate::calendar::time_valid(t),
{
    if has_sep(cs) {
        let fields = split_from(cs, 0, false);
        proof {
            assert(cs@.skip(0) =~= cs@);
        }
        if fields.len() > 1 {
            let h_opt = parse_field(&fields[0], 255);
            let m_opt = parse_field(&fields[1], 255);
            make_time(h_opt, m_opt)
        } else {
            None
        }
    } else {
        let c = filter_digits(cs);
        let len = c.len();
        if len >= 4 {
            let h = digits_value(&c, 0, 2);
            let m = digits_value(&c, 2, 4);
            proof {
                lemma_pow10_small();
            }
            make_time(Some(h as u64), Some(m as u64))
        } else if len == 3 {
            let end_two = digits_value(&c, 1, 3);
            if end_two > 59 {
                let first_two = digits_value(&c, 0, 2);
                if first_two < 24 {
                    let last = digits_value(&c, 2, 3);
                    proof {
                        lemma_pow10_small();
                        assert(c@.subrange(2, 3) =~= seq![c@[2]]);
                        assert(c@.subrange(2, 3).drop_last() =~= Seq::<char>::empty());
                        assert(digits_val(Seq::<char>::empty()) == 0);
                        assert(digits_val(c@.subrange(2, 3)) == digit_val(c@[2]));
                    }
                    make_time(Some(first_two as u64), Some(last as u64))
                } else {
                    None
                }
            } else {
                let first = digits_value(&c, 0, 1);
                proof {
                    lemma_pow10_small();
                    assert(c@.subrange(0, 1) =~= seq![c@[0]]);
                    assert(c@.subrange(0, 1).drop_last() =~= Seq::<char>::empty());
                    assert(digits_val(Seq::<char>::empty()) == 0);
                    assert(digits_val(c@.subrange(0, 1)) == digit_val(c@[0]));
                }
                make_time(Some(first as u64), Some(end_two as u64))
            }
        } else if len == 2 {
            let c0 = c[0];
            let c1 = c[1];
            if c0 == '1' || (c0 == '2' && (c1 == '0' || c1 == '1' || c1 == '2' || c1 == '3')) {
                let h = digits_value(&c, 0, 2);
                proof {
                    lemma_pow10_small();
                }
                make_time(Some(h as u64), Some(0))
            } else {
                let h = digits_value(&c, 0, 1);
                let m = digits_value(&c, 1, 2);
                proof {
                    lemma_pow10_small();
                    assert(c@.subrange(0, 1) =~= seq![c@[0]]);
                    assert(c@.subrange(0, 1).drop_last() =~= Seq::<char>::empty());
                    assert(c@.subrange(1, 2) =~= seq![c@[1]]);
                    assert(c@.subrange(1, 2).drop_last() =~= Seq::<char>::empty());
                    assert(digits_val(Seq::<char>::empty()) == 0);
                }
                make_time(Some(h as u64), Some(m as u64))
            }
        } else if len == 1 {
            let h = digits_value(&c, 0, 1);
            proof {
                lemma_pow10_small();
                assert(c@.subrange(0, 1) =~= seq![c@[0]]);
                assert(c@.subrange(0, 1).drop_last() =~= Seq::<char>::empty());
                assert(digits_val(Seq::<char>::empty()) == 0);
            }
            make_time(Some(h as u64), Some(0))
        } else {
            None
        }
    }
}

/// Parses a display-grammar time (`HH:MM` with liberal separators, or a
/// one-to-four digit shorthand).
pub fn time_from_pat(text: &str) -> (r: Option<ClockTime>)
    ensures
        r == parse_time_seq(text@),
        r matches Some(t) ==> crate::calendar::time_valid(t),
{
    let cs = to_chars(text);
    parse_time_chars(&cs)
}

/// Parses a display-grammar combined date and time (the halves divided
/// by a space or a `T`) against an explicit current year.
pub fn datetime_from_pat_at(text: &str, now_year: i32) -> (r: Option<CalendarInstant>)
    requires
        1 <= now_year <= 9999,
    ensures
        r == parse_datetime_seq(text@, now_year as int),
        r matches Some(i) ==> crate::calendar::instant_valid(i),
{
    let cs = to_chars(text);
    let rep = crate::chars::replace_t_vec(&cs);
    let fields = split_from(&rep, 0, true);
    proof {
        assert(rep@.skip(0) =~= rep@);
    }
    if fields.len() == 2 {
        let p0 = trim_vec(&fields[0]);
        let p1 = trim_vec(&fields[1]);
        let d_opt = parse_date_chars(&p0, now_year);
        let t_opt = parse_time_chars(&p1);
        match (d_opt, t_opt) {
            (Some(d), Some(t)) => Some(CalendarInstant { date: d, time: t }),
            _ => None,
        }
    } else {
        None
    }
}

/// Parses a display-grammar combined date and time against the current
/// UTC+7 year.
pub fn datetime_from_pat(text: &str) -> (r: Option<CalendarInstant>)
    ensures
        exists|y: int|
            1 <= y <= 9999 && r == #[trigger] parse_datetime_seq(text@, y),
        r matches Some(i) ==> crate::calendar::instant_valid(i),
{
    let n = now();
    let r = datetime_from_pat_at(text, n.date.year);
    proof {
        assert(r == parse_datetime_seq(text@, n.date.year as int));
    }
    r
}

} // verus!
