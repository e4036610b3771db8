//! Character classes, decimal digit runs, and decimal rendering of numbers.
//! These are the shared foundation of the text codec: every parse routine
//! reads digit runs through the spec functions here, and every format
//! routine renders numbers through `num_str` and its padded variants.

use vstd::prelude::*;
use vstd::std_specs::iter::IteratorSpec;

verus! {

broadcast use vstd::string::group_string_axioms;

/// The separator characters that delimit date and time fields.
pub open spec fn is_sep_char(c: char) -> bool {
    c == '/' || c == '-' || c == '.' || c == ':'
}

/// Whitespace accepted (and ignored) around a numeric field: the
/// characters with the Unicode White_Space property.
pub open spec fn is_ws_char(c: char) -> bool {
    c == ' ' || c == '\t' || c == '\n' || c == '\u{0B}' || c == '\u{0C}' || c == '\r' || c
        == '\u{85}' || c == '\u{A0}' || c == '\u{1680}' || ('\u{2000}' <= c && c <= '\u{200A}')
        || c == '\u{2028}' || c == '\u{2029}' || c == '\u{202F}' || c == '\u{205F}' || c
        == '\u{3000}'
}

/// `s` with every `T` replaced by a space: the combined date-and-time
/// grammars treat `T` as the boundary between the two halves.
pub open spec fn replace_t(s: Seq<char>) -> Seq<char> {
    s.map_values(
        |c: char|
            if c == 'T' {
                ' '
            } else {
                c
            },
    )
}

/// An ASCII decimal digit.
pub open spec fn is_digit_char(c: char) -> bool {
    '0' <= c && c <= '9'
}

/// Numeric value of an ASCII decimal digit.
pub open spec fn digit_val(c: char) -> int {
    c as int - '0' as int
}

/// The ASCII digit character for a value in 0..=9.
pub open spec fn char_of_digit(d: int) -> char {
    if d == 0 {
        '0'
    } else if d == 1 {
        '1'
    } else if d == 2 {
        '2'
    } else if d == 3 {
        '3'
    } else if d == 4 {
        '4'
    } else if d == 5 {
        '5'
    } else if d == 6 {
        '6'
    } else if d == 7 {
        '7'
    } else if d == 8 {
        '8'
    } else {
        '9'
    }
}

/// Every character of `s` is an ASCII decimal digit.
pub open spec fn all_digits(s: Seq<char>) -> bool {
    forall|i: int| 0 <= i < s.len() ==> is_digit_char(#[trigger] s[i])
}

/// The number denoted by a run of decimal digits, most significant first.
pub open spec fn digits_val(s: Seq<char>) -> int
    decreases s.len(),
{
    if s.len() == 0 {
        0
    } else {
        digits_val(s.drop_last()) * 10 + digit_val(s.last())
    }
}

/// Decimal rendering of `n >= 0`, without padding.
pub open spec fn num_str(n: int) -> Seq<char>
    decreases n,
{
    if n < 10 {
        seq![char_of_digit(n)]
    } else {
        num_str(n / 10).push(char_of_digit(n % 10))
    }
}

/// Decimal rendering of `n`, zero-padded to at least two characters.
pub open spec fn pad2(n: int) -> Seq<char> {
    if n < 10 {
        seq!['0'] + num_str(n)
    } else {
        num_str(n)
    }
}

/// Decimal rendering of `n`, zero-padded to at least four characters.
pub open spec fn pad4(n: int) -> Seq<char> {
    if n < 10 {
        seq!['0', '0', '0'] + num_str(n)
    } else if n < 100 {
        seq!['0', '0'] + num_str(n)
    } else if n < 1000 {
        seq!['0'] + num_str(n)
    } else {
        num_str(n)
    }
}

/// A rendered number consists of digits alone, and the digits read back as
/// the number that was rendered.
pub(crate) proof fn lemma_num_str_digits(n: int)
    requires
        0 <= n,
    ensures
        all_digits(num_str(n)),
        digits_val(num_str(n)) == n,
        num_str(n).len() >= 1,
    decreases n,
{
    if n < 10 {
        assert(num_str(n) =~= seq![char_of_digit(n)]);
        assert(seq![char_of_digit(n)].drop_last() =~= Seq::<char>::empty());
        assert(digits_val(Seq::<char>::empty()) == 0);
        assert(digits_val(num_str(n)) == digit_val(char_of_digit(n)));
    } else {
        lemma_num_str_digits(n / 10);
        let s = num_str(n / 10).push(char_of_digit(n % 10));
        assert(s.drop_last() =~= num_str(n / 10));
        assert(s.last() == char_of_digit(n % 10));
        assert(digits_val(s) == (n / 10) * 10 + digit_val(char_of_digit(n % 10)));
        assert(digit_val(char_of_digit(n % 10)) == n % 10);
    }
}

/// Appending a digit multiplies the value by ten and adds the digit, so a
/// digit run's value never shrinks as it grows.
pub(crate) proof fn lemma_digits_val_prefix_monotone(s: Seq<char>, k: int)
    requires
        all_digits(s),
        0 <= k <= s.len(),
    ensures
        digits_val(s.take(k)) <= digits_val(s),
        digits_val(s) >= 0,
    decreases s.len() - k,
{
    lemma_digits_val_nonneg(s.take(k));
    if k < s.len() {
        assert(s.take(k + 1).drop_last() =~= s.take(k));
        assert(s.take(k + 1).last() == s[k]);
        lemma_digits_val_nonneg(s.take(k));
        assert(digits_val(s.take(k + 1)) == digits_val(s.take(k)) * 10 + digit_val(s[k]));
        lemma_digits_val_prefix_monotone(s, k + 1);
    } else {
        assert(s.take(k) =~= s);
    }
}

/// A digit run denotes a non-negative number.
pub(crate) proof fn lemma_digits_val_nonneg(s: Seq<char>)
    requires
        all_digits(s),
    ensures
        digits_val(s) >= 0,
    decreases s.len(),
{
    if s.len() > 0 {
        assert(all_digits(s.drop_last()));
        lemma_digits_val_nonneg(s.drop_last());
    }
}

/// The characters of `s`, in order.
pub(crate) fn to_chars(s: &str) -> (r: Vec<char>)
    ensures
        r@ == s@,
{
    let mut it = s.chars();
    let mut v: Vec<char> = Vec::new();
    loop
        invariant
            v@ =~= s@.take(v@.len() as int),
            it.remaining() =~= s@.skip(v@.len() as int),
            v@.len() <= s@.len(),
            it.decrease() is Some,
        ensures
            v@ =~= s@,
        decreases it.decrease()->0,
    {
        match it.next() {
            Some(c) => {
                proof {
                    assert(s@.skip(v@.len() as int)[0] == s@[v@.len() as int]);
                    assert(s@.take(v@.len() as int + 1) =~= s@.take(v@.len() as int).push(
                        s@[v@.len() as int],
                    ));
                    assert(s@.skip(v@.len() as int).drop_first() =~= s@.skip(v@.len() as int + 1));
                }
                v.push(c);
            },
            None => {
                proof {
                    assert(s@.skip(v@.len() as int).len() == 0);
                }
                break ;
            },
        }
    }
    v
}

/// `v` with every `T` replaced by a space.
pub(crate) fn replace_t_vec(v: &Vec<char>) -> (r: Vec<char>)
    ensures
        r@ == replace_t(v@),
{
    let mut r: Vec<char> = Vec::new();
    let mut k: usize = 0;
    while k < v.len()
        invariant
            0 <= k <= v@.len(),
            r@ =~= replace_t(v@.take(k as int)),
        decreases v@.len() - k,
    {
        let c = v[k];
        proof {
            assert(replace_t(v@.take(k + 1)) =~= replace_t(v@.take(k as int)).push(
                if v@[k as int] == 'T' {
                    ' '
                } else {
                    v@[k as int]
                },
            ));
        }
        if c == 'T' {
            r.push(' ');
        } else {
            r.push(c);
        }
        k += 1;
    }
    proof {
        assert(v@.take(v@.len() as int) =~= v@);
    }
    r
}

/// The one-character string for a digit value.
pub(crate) fn digit_str(d: u8) -> (r: &'static str)
    requires
        d < 10,
    ensures
        r@ =~= seq![char_of_digit(d as int)],
{
    proof {
        reveal_strlit("0");
        reveal_strlit("1");
        reveal_strlit("2");
        reveal_strlit("3");
        reveal_strlit("4");
        reveal_strlit("5");
        reveal_strlit("6");
        reveal_strlit("7");
        reveal_strlit("8");
        reveal_strlit("9");
    }
    match d {
        0 => "0",
        1 => "1",
        2 => "2",
        3 => "3",
        4 => "4",
        5 => "5",
        6 => "6",
        7 => "7",
        8 => "8",
        _ => "9",
    }
}

/// Appends the decimal rendering of `n` to `out`.
pub(crate) fn push_num(out: &mut String, n: u64)
    ensures
        final(out)@ == old(out)@ + num_str(n as int),
    decreases n,
{
    if n >= 10 {
        push_num(out, n / 10);
    }
    let d: u8 = (n % 10) as u8;
    out.append(digit_str(d));
    proof {
        if n >= 10 {
            assert(old(out)@ + num_str((n / 10) as int) + seq![char_of_digit((n % 10) as int)]
                =~= old(out)@ + num_str(n as int));
        } else {
            assert(old(out)@ + seq![char_of_digit(n as int)] =~= old(out)@ + num_str(n as int));
        }
    }
}

/// Appends the decimal rendering of `n`, zero-padded to two characters.
pub(crate) fn push_pad2(out: &mut String, n: u64)
    ensures
        final(out)@ == old(out)@ + pad2(n as int),
{
    if n < 10 {
        out.append("0");
        proof {
            reveal_strlit("0");
            assert("0"@ =~= seq!['0']);
        }
    }
    push_num(out, n);
    proof {
        if n < 10 {
            assert(old(out)@ + seq!['0'] + num_str(n as int) =~= old(out)@ + pad2(n as int));
        }
    }
}

/// Appends the decimal rendering of `n`, zero-padded to four characters.
pub(crate) fn push_pad4(out: &mut String, n: u64)
    ensures
        final(out)@ == old(out)@ + pad4(n as int),
{
    proof {
        reveal_strlit("000");
        reveal_strlit("00");
        reveal_strlit("0");
    }
    if n < 10 {
        out.append("000");
        proof {
            assert("000"@ =~= seq!['0', '0', '0']);
        }
    } else if n < 100 {
        out.append("00");
        proof {
            assert("00"@ =~= seq!['0', '0']);
        }
    } else if n < 1000 {
        out.append("0");
        proof {
            assert("0"@ =~= seq!['0']);
        }
    }
    push_num(out, n);
    proof {
        if n < 10 {
            assert(old(out)@ + seq!['0', '0', '0'] + num_str(n as int) =~= old(out)@ + pad4(
                n as int,
            ));
        } else if n < 100 {
            assert(old(out)@ + seq!['0', '0'] + num_str(n as int) =~= old(out)@ + pad4(n as int));
        } else if n < 1000 {
            assert(old(out)@ + seq!['0'] + num_str(n as int) =~= old(out)@ + pad4(n as int));
        }
    }
}

} // verus!
