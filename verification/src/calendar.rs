//! The date label drawn at the top of the panel: the calendar date of a
//! UNIX timestamp, written as "DD Mon YYYY".

use chrono::Datelike;
use vstd::prelude::*;
use vstd::utf8::*;

use crate::text::{
    label_buffer_new, label_buffer_push, label_buffer_push_str, label_text, lemma_ascii_byte_len,
};

verus! {

// ---------------------------------------------------------------------
// The proleptic Gregorian calendar
// ---------------------------------------------------------------------

/// Earliest year that `chrono` represents.
pub const FIRST_YEAR: i32 = -262143;

/// Latest year that `chrono` represents.
pub const LAST_YEAR: i32 = 262142;

pub open spec fn is_leap_year(y: int) -> bool {
    (y % 4 == 0 && y % 100 != 0) || y % 400 == 0
}

pub open spec fn days_in_month(y: int, m: int) -> int {
    if m == 2 {
        if is_leap_year(y) { 29 } else { 28 }
    } else if m == 4 || m == 6 || m == 9 || m == 11 {
        30
    } else {
        31
    }
}

/// `(y, m, d)` names a day of the calendar.
pub open spec fn is_valid_date(y: int, m: int, d: int) -> bool {
    1 <= m <= 12 && 1 <= d <= days_in_month(y, m)
}

/// Leap years among the years before `y`, counted from a fixed origin.
pub open spec fn leap_years_before(y: int) -> int {
    (y - 1) / 4 - (y - 1) / 100 + (y - 1) / 400
}

/// Days from 1 January 1970 to 1 January of year `y`.
pub open spec fn days_before_year(y: int) -> int {
    365 * (y - 1970) + leap_years_before(y) - leap_years_before(1970)
}

/// Days from 1 January to the first day of month `m` of year `y`.
pub open spec fn days_before_month(y: int, m: int) -> int {
    let common: int = if m <= 1 {
        0
    } else if m == 2 {
        31
    } else if m == 3 {
        59
    } else if m == 4 {
        90
    } else if m == 5 {
        120
    } else if m == 6 {
        151
    } else if m == 7 {
        181
    } else if m == 8 {
        212
    } else if m == 9 {
        243
    } else if m == 10 {
        273
    } else if m == 11 {
        304
    } else {
        334
    };
    if m > 2 && is_leap_year(y) { common + 1 } else { common }
}

/// Number of the day `(y, m, d)`, with 1 January 1970 as day 0.
pub open spec fn epoch_day(y: int, m: int, d: int) -> int {
    days_before_year(y) + days_before_month(y, m) + d - 1
}

/// Day number of the earliest date that `chrono` represents.
pub open spec fn first_epoch_day() -> int {
    epoch_day(FIRST_YEAR as int, 1, 1)
}

/// Day number of the latest date that `chrono` represents.
pub open spec fn last_epoch_day() -> int {
    epoch_day(LAST_YEAR as int, 12, 31)
}

/// The day on which the UNIX timestamp `secs` falls.
pub open spec fn day_of_timestamp(secs: int) -> int {
    secs / 86400
}

/// `chrono::DateTime::<Utc>::from_timestamp(secs, 0)` and the year, month
/// and day of the result (`Datelike::year`, `month`, `day`). The contract
/// claims what chrono documents and its source shows: the result exists
/// exactly when the day of the timestamp lies in chrono's year range, and
/// it is then the calendar date of that day in the proleptic Gregorian
/// calendar, in UTC.
#[verifier::external_body]
fn utc_date_of_timestamp(secs: i64) -> (r: Option<(i32, u32, u32)>)
    ensures
        r is Some <==> first_epoch_day() <= day_of_timestamp(secs as int) <= last_epoch_day(),
        r matches Some((y, m, d)) ==> {
            &&& is_valid_date(y as int, m as int, d as int)
            &&& FIRST_YEAR <= y <= LAST_YEAR
            &&& epoch_day(y as int, m as int, d as int) == day_of_timestamp(secs as int)
        },
{
    match chrono::DateTime::from_timestamp(secs, 0) {
        Some(dt) => Some((dt.year(), dt.month(), dt.day())),
        None => None,
    }
}

proof fn lemma_leap_years_step(y: int)
    ensures
        leap_years_before(y + 1) == leap_years_before(y) + if is_leap_year(y) { 1int } else { 0int },
{
    assert(y / 4 - (y - 1) / 4 == if y % 4 == 0 { 1int } else { 0int }) by (nonlinear_arith);
    assert(y / 100 - (y - 1) / 100 == if y % 100 == 0 { 1int } else { 0int }) by (nonlinear_arith);
    assert(y / 400 - (y - 1) / 400 == if y % 400 == 0 { 1int } else { 0int }) by (nonlinear_arith);
    assert(y % 400 == 0 ==> y % 100 == 0 && y % 4 == 0) by (nonlinear_arith);
    assert(y % 100 == 0 ==> y % 4 == 0) by (nonlinear_arith);
}

/// Every day of year `y` comes before every day of a later year.
proof fn lemma_days_before_year_grows(y1: int, y2: int)
    requires
        y1 < y2,
    ensures
        days_before_year(y1) + 365 + (if is_leap_year(y1) { 1int } else { 0int }) <= days_before_year(y2),
    decreases y2 - y1,
{
    lemma_leap_years_step(y1);
    if y1 + 1 < y2 {
        lemma_days_before_year_grows(y1 + 1, y2);
    }
}

proof fn lemma_day_of_year_range(y: int, m: int, d: int)
    requires
        is_valid_date(y, m, d),
    ensures
        0 <= days_before_month(y, m) + d - 1 < 365 + (if is_leap_year(y) { 1int } else { 0int }),
{
}

proof fn lemma_months_ordered(y: int, m1: int, m2: int)
    requires
        1 <= m1 < m2 <= 12,
    ensures
        days_before_month(y, m1) + days_in_month(y, m1) <= days_before_month(y, m2),
{
}

/// Distinct dates have distinct day numbers: a day number names one date.
pub proof fn lemma_epoch_day_injective(y1: int, m1: int, d1: int, y2: int, m2: int, d2: int)
    requires
        is_valid_date(y1, m1, d1),
        is_valid_date(y2, m2, d2),
        epoch_day(y1, m1, d1) == epoch_day(y2, m2, d2),
    ensures
        y1 == y2 && m1 == m2 && d1 == d2,
{
    lemma_day_of_year_range(y1, m1, d1);
    lemma_day_of_year_range(y2, m2, d2);
    if y1 < y2 {
        lemma_days_before_year_grows(y1, y2);
    } else if y2 < y1 {
        lemma_days_before_year_grows(y2, y1);
    } else if m1 < m2 {
        lemma_months_ordered(y1, m1, m2);
    } else if m2 < m1 {
        lemma_months_ordered(y1, m2, m1);
    }
}

/// The calendar date `(year, month, day)` of day number `day`.
pub open spec fn date_of_day(day: int) -> (int, int, int) {
    choose|y: int, m: int, d: int| is_valid_date(y, m, d) && epoch_day(y, m, d) == day
}

/// The day after `(y, m, d)`.
pub open spec fn next_date(y: int, m: int, d: int) -> (int, int, int) {
    if d < days_in_month(y, m) {
        (y, m, d + 1)
    } else if m < 12 {
        (y, m + 1, 1)
    } else {
        (y + 1, 1, 1)
    }
}

/// Day numbers count the days one by one from 1 January 1970, which is
/// day 0: the day after a date has the next day number, and is a date.
/// February has 29 days exactly in leap years, which are the years
/// divisible by 4 but not by 100, or by 400.
pub proof fn lemma_days_counted_from_epoch(y: int, m: int, d: int)
    requires
        is_valid_date(y, m, d),
    ensures
        epoch_day(1970, 1, 1) == 0,
        ({
            let (y2, m2, d2) = next_date(y, m, d);
            is_valid_date(y2, m2, d2) && epoch_day(y2, m2, d2) == epoch_day(y, m, d) + 1
        }),
        days_in_month(y, 2) == 29 <==> ((y % 4 == 0 && y % 100 != 0) || y % 400 == 0),
        days_in_month(y, 2) == 28 || days_in_month(y, 2) == 29,
{
    if d == days_in_month(y, m) && m == 12 {
        lemma_leap_years_step(y);
    }
}

// ---------------------------------------------------------------------
// Month names
// ---------------------------------------------------------------------

/// Three-letter English abbreviation of month `month` (1 to 12), and "Err"
/// for any other number.
pub open spec fn month_abbrev(month: u32) -> Seq<char> {
    if month == 1 {
        seq!['J', 'a', 'n']
    } else if month == 2 {
        seq!['F', 'e', 'b']
    } else if month == 3 {
        seq!['M', 'a', 'r']
    } else if month == 4 {
        seq!['A', 'p', 'r']
    } else if month == 5 {
        seq!['M', 'a', 'y']
    } else if month == 6 {
        seq!['J', 'u', 'n']
    } else if month == 7 {
        seq!['J', 'u', 'l']
    } else if month == 8 {
        seq!['A', 'u', 'g']
    } else if month == 9 {
        seq!['S', 'e', 'p']
    } else if month == 10 {
        seq!['O', 'c', 't']
    } else if month == 11 {
        seq!['N', 'o', 'v']
    } else if month == 12 {
        seq!['D', 'e', 'c']
    } else {
        seq!['E', 'r', 'r']
    }
}

/// The name drawn for a month number.
pub fn month_name(month: u32) -> (name: &'static str)
    ensures
        name@ == month_abbrev(month),
{
    match month {
        1 => {
            proof { reveal_strlit("Jan"); }
            "Jan"
        },
        2 => {
            proof { reveal_strlit("Feb"); }
            "Feb"
        },
        3 => {
            proof { reveal_strlit("Mar"); }
            "Mar"
        },
        4 => {
            proof { reveal_strlit("Apr"); }
            "Apr"
        },
        5 => {
            proof { reveal_strlit("May"); }
            "May"
        },
        6 => {
            proof { reveal_strlit("Jun"); }
            "Jun"
        },
        7 => {
            proof { reveal_strlit("Jul"); }
            "Jul"
        },
        8 => {
            proof { reveal_strlit("Aug"); }
            "Aug"
        },
        9 => {
            proof { reveal_strlit("Sep"); }
            "Sep"
        },
        10 => {
            proof { reveal_strlit("Oct"); }
            "Oct"
        },
        11 => {
            proof { reveal_strlit("Nov"); }
            "Nov"
        },
        12 => {
            proof { reveal_strlit("Dec"); }
            "Dec"
        },
        _ => {
            proof { reveal_strlit("Err"); }
            "Err"
        },
    }
}


/// The months are named January to December in order, each by three
/// distinct letters, and any other number is named "Err".
pub proof fn lemma_month_names(m: u32)
    ensures
        1 <= m <= 12 ==> month_abbrev(m) == seq![
            seq!['J', 'a', 'n'],
            seq!['F', 'e', 'b'],
            seq!['M', 'a', 'r'],
            seq!['A', 'p', 'r'],
            seq!['M', 'a', 'y'],
            seq!['J', 'u', 'n'],
            seq!['J', 'u', 'l'],
            seq!['A', 'u', 'g'],
            seq!['S', 'e', 'p'],
            seq!['O', 'c', 't'],
            seq!['N', 'o', 'v'],
            seq!['D', 'e', 'c'],
        ][m - 1],
        !(1 <= m <= 12) ==> month_abbrev(m) == seq!['E', 'r', 'r'],
        month_abbrev(m).len() == 3,
{
}

// ---------------------------------------------------------------------
// Decimal numbers
// ---------------------------------------------------------------------

/// The character of decimal digit `d` (0 to 9).
pub open spec fn digit_char(d: int) -> char {
    (d + 48) as char
}

/// Decimal digits of `n`, most significant first, with no leading zero.
pub open spec fn decimal_digits(n: nat) -> Seq<char>
    decreases n,
{
    if n < 10 {
        seq![digit_char(n as int)]
    } else {
        decimal_digits(n / 10).push(digit_char((n % 10) as int))
    }
}

/// `n` in decimal, with zeros in front up to `width` characters (Rust's
/// `{:0width$}` on an unsigned integer).
pub open spec fn zero_padded(n: nat, width: nat) -> Seq<char> {
    let digits = decimal_digits(n);
    let fill: nat = if digits.len() < width { (width - digits.len()) as nat } else { 0 };
    Seq::new(fill, |_i: int| '0') + digits
}

/// `v` in decimal, with a leading '-' when negative and zeros between the
/// sign and the digits up to `width` characters in all (Rust's
/// `{:0width$}` on a signed integer).
pub open spec fn signed_zero_padded(v: int, width: nat) -> Seq<char> {
    if v < 0 {
        seq!['-'] + zero_padded((-v) as nat, if width > 0 { (width - 1) as nat } else { 0 })
    } else {
        zero_padded(v as nat, width)
    }
}

/// The label of a date: day on two digits, month name and year on four
/// digits, separated by single spaces (`"{:02} {:02} {:04}"`).
pub open spec fn date_label_text(day: u32, month: u32, year: i32) -> Seq<char> {
    zero_padded(day as nat, 2) + seq![' '] + month_abbrev(month) + seq![' '] + signed_zero_padded(
        year as int,
        4,
    )
}

proof fn lemma_digit_char_ascii(d: int)
    requires
        0 <= d < 10,
    ensures
        '0' <= digit_char(d) <= '9',
{
}

proof fn lemma_decimal_digits_shape(n: nat)
    ensures
        1 <= decimal_digits(n).len(),
        is_ascii_chars(decimal_digits(n)),
    decreases n,
{
    if n < 10 {
        lemma_digit_char_ascii(n as int);
    } else {
        lemma_decimal_digits_shape(n / 10);
        lemma_digit_char_ascii((n % 10) as int);
        let s = decimal_digits(n);
        assert(s == decimal_digits(n / 10).push(digit_char((n % 10) as int)));
        assert forall|i| 0 <= i < s.len() implies '\0' <= #[trigger] s[i] <= '\u{7f}' by {
            if i < s.len() - 1 {
                assert(s[i] == decimal_digits(n / 10)[i]);
            }
        }
    }
}

pub open spec fn pow10(k: nat) -> nat
    decreases k,
{
    if k == 0 { 1 } else { 10 * pow10((k - 1) as nat) }
}

/// A number below `10^k` has at most `k` digits.
proof fn lemma_decimal_digits_len_bound(n: nat, k: nat)
    requires
        1 <= k,
        n < pow10(k),
    ensures
        decimal_digits(n).len() <= k,
    decreases k,
{
    if n >= 10 {
        if k == 1 {
            assert(pow10(1) == 10 * pow10(0));
        } else {
            assert(pow10(k) == 10 * pow10((k - 1) as nat));
            lemma_decimal_digits_len_bound(n / 10, (k - 1) as nat);
        }
    }
}

/// A `u32` has at most ten decimal digits.
proof fn lemma_u32_decimal_len(n: u32)
    ensures
        decimal_digits(n as nat).len() <= 10,
{
    reveal_with_fuel(pow10, 11);
    lemma_decimal_digits_len_bound(n as nat, 10);
}

/// The number that a string of decimal digits reads as.
pub open spec fn digits_value(s: Seq<char>) -> int
    decreases s.len(),
{
    if s.len() == 0 {
        0
    } else {
        digits_value(s.drop_last()) * 10 + (s.last() as int - 48)
    }
}

/// `c` is a decimal digit.
pub open spec fn is_digit(c: char) -> bool {
    '0' <= c <= '9'
}

/// The decimal digits of `n` are digits, read back as `n`, and start with
/// a zero only for zero itself.
pub proof fn lemma_decimal_digits_read_back(n: nat)
    ensures
        forall|i: int| 0 <= i < decimal_digits(n).len() ==> is_digit(#[trigger] decimal_digits(n)[i]),
        digits_value(decimal_digits(n)) == n,
        1 <= decimal_digits(n).len(),
        decimal_digits(n)[0] == '0' <==> n == 0,
    decreases n,
{
    lemma_decimal_digits_shape(n);
    if n < 10 {
        lemma_digit_char_ascii(n as int);
        assert(decimal_digits(n).drop_last() =~= Seq::<char>::empty());
        assert(decimal_digits(n).last() as int == n + 48);
        assert(digits_value(decimal_digits(n).drop_last()) == 0);
        assert(digits_value(decimal_digits(n)) == n);
    } else {
        lemma_decimal_digits_read_back(n / 10);
        lemma_digit_char_ascii((n % 10) as int);
        let s = decimal_digits(n);
        assert(s.drop_last() =~= decimal_digits(n / 10));
        assert forall|i: int| 0 <= i < s.len() implies is_digit(#[trigger] s[i]) by {
            if i < s.len() - 1 {
                assert(s[i] == decimal_digits(n / 10)[i]);
            }
        }
        assert(s[0] == decimal_digits(n / 10)[0]);
        assert(s.last() as int == n % 10 + 48);
        assert((n / 10) * 10 + n % 10 == n) by (nonlinear_arith);
        assert(digits_value(s.drop_last()) == n / 10);
        assert(digits_value(s) == n);
    }
}

/// Leading zeros do not change the number that digits read as.
proof fn lemma_leading_zeros_value(k: nat, s: Seq<char>)
    ensures
        digits_value(Seq::new(k, |_i: int| '0') + s) == digits_value(s),
    decreases s.len(),
{
    let z = Seq::new(k, |_i: int| '0');
    if s.len() == 0 {
        assert(z + s =~= z);
        lemma_zeros_value(k);
    } else {
        lemma_leading_zeros_value(k, s.drop_last());
        assert((z + s).drop_last() =~= z + s.drop_last());
        assert((z + s).last() == s.last());
    }
}

proof fn lemma_zeros_value(k: nat)
    ensures
        digits_value(Seq::new(k, |_i: int| '0')) == 0,
    decreases k,
{
    if k > 0 {
        lemma_zeros_value((k - 1) as nat);
        assert(Seq::new(k, |_i: int| '0').drop_last() =~= Seq::new((k - 1) as nat, |_i: int| '0'));
    }
}

/// A zero-padded field holds digits only, reads back as `n`, and is
/// `width` characters long unless `n` needs more, with no zero in front
/// then.
pub proof fn lemma_zero_padded_read_back(n: nat, width: nat)
    ensures
        forall|i: int| 0 <= i < zero_padded(n, width).len() ==> is_digit(#[trigger] zero_padded(n, width)[i]),
        digits_value(zero_padded(n, width)) == n,
        zero_padded(n, width).len() == if decimal_digits(n).len() < width {
            width
        } else {
            decimal_digits(n).len()
        },
        zero_padded(n, width).len() > width && n > 0 ==> zero_padded(n, width)[0] != '0',
{
    lemma_decimal_digits_read_back(n);
    let ds = decimal_digits(n);
    let fill: nat = if ds.len() < width { (width - ds.len()) as nat } else { 0 };
    lemma_leading_zeros_value(fill, ds);
    let z = zero_padded(n, width);
    assert(z == Seq::new(fill, |_i: int| '0') + ds);
    assert forall|i: int| 0 <= i < z.len() implies is_digit(#[trigger] z[i]) by {
        if i >= fill {
            assert(z[i] == ds[i - fill]);
        }
    }
    if z.len() > width {
        assert(z[0] == ds[0]);
    }
}

/// A signed field starts with '-' exactly for a negative number, and the
/// rest is the zero-padded magnitude, so that the whole field is at least
/// `width` characters.
pub proof fn lemma_signed_zero_padded_shape(v: int, width: nat)
    requires
        width >= 1,
    ensures
        (signed_zero_padded(v, width)[0] == '-') <==> v < 0,
        v < 0 ==> signed_zero_padded(v, width).drop_first() == zero_padded((-v) as nat, (width - 1) as nat),
        v >= 0 ==> signed_zero_padded(v, width) == zero_padded(v as nat, width),
        signed_zero_padded(v, width).len() >= width,
{
    if v < 0 {
        lemma_zero_padded_read_back((-v) as nat, (width - 1) as nat);
        assert(signed_zero_padded(v, width).drop_first() =~= zero_padded((-v) as nat, (width - 1) as nat));
    } else {
        lemma_zero_padded_read_back(v as nat, width);
        lemma_decimal_digits_read_back(v as nat);
        let z = zero_padded(v as nat, width);
        let ds = decimal_digits(v as nat);
        let fill: nat = if ds.len() < width { (width - ds.len()) as nat } else { 0 };
        if fill > 0 {
            assert(z[0] == '0');
        } else {
            assert(z[0] == ds[0]);
            assert(is_digit(ds[0]));
        }
    }
}

/// Number of decimal digits of `n`.
fn decimal_len(n: u32) -> (len: usize)
    ensures
        len == decimal_digits(n as nat).len(),
    decreases n,
{
    proof {
        lemma_decimal_digits_shape(n as nat);
    }
    if n < 10 {
        1
    } else {
        let rest = decimal_len(n / 10);
        proof {
            lemma_u32_decimal_len(n);
        }
        rest + 1
    }
}

/// Appending ASCII characters keeps a label ASCII.
proof fn lemma_ascii_concat(a: Seq<char>, b: Seq<char>)
    requires
        is_ascii_chars(a),
        is_ascii_chars(b),
    ensures
        is_ascii_chars(a + b),
{
    assert forall|i| 0 <= i < (a + b).len() implies '\0' <= #[trigger] (a + b)[i] <= '\u{7f}' by {
        if i < a.len() {
            assert((a + b)[i] == a[i]);
        } else {
            assert((a + b)[i] == b[i - a.len()]);
        }
    }
}

/// Appends one ASCII character to a label that has room for it.
fn push_ascii(buf: &mut heapless::String<50>, c: char)
    requires
        is_ascii_chars(label_text(*old(buf))),
        label_text(*old(buf)).len() < 50,
        '\0' <= c <= '\u{7f}',
    ensures
        label_text(*final(buf)) == label_text(*old(buf)).push(c),
        is_ascii_chars(label_text(*final(buf))),
{
    proof {
        lemma_ascii_byte_len(label_text(*buf));
        assert(is_ascii_chars(seq![c]));
        lemma_ascii_byte_len(seq![c]);
        lemma_ascii_concat(label_text(*buf), seq![c]);
        assert(label_text(*buf) + seq![c] == label_text(*buf).push(c));
    }
    let r = label_buffer_push(buf, c);
    assert(r is Ok);
}

/// Appends the decimal digits of `n`.
fn push_decimal(buf: &mut heapless::String<50>, n: u32)
    requires
        is_ascii_chars(label_text(*old(buf))),
        label_text(*old(buf)).len() + decimal_digits(n as nat).len() <= 50,
    ensures
        label_text(*final(buf)) == label_text(*old(buf)) + decimal_digits(n as nat),
        is_ascii_chars(label_text(*final(buf))),
    decreases n,
{
    proof {
        lemma_decimal_digits_shape(n as nat);
    }
    if n >= 10 {
        proof {
            lemma_decimal_digits_shape((n / 10) as nat);
        }
        push_decimal(buf, n / 10);
    }
    let d: u8 = (n % 10) as u8;
    let c: char = (d + 48) as char;
    proof {
        lemma_digit_char_ascii(d as int);
        assert(c == digit_char((n % 10) as int));
    }
    push_ascii(buf, c);
    proof {
        if n >= 10 {
            assert(decimal_digits(n as nat) == decimal_digits((n / 10) as nat).push(c));
        } else {
            assert(decimal_digits(n as nat) == seq![c]);
        }
    }
    assert(label_text(*buf) =~= label_text(*old(buf)) + decimal_digits(n as nat));
}


/// Appends `n` in decimal with zeros in front up to `width` characters.
fn push_zero_padded(buf: &mut heapless::String<50>, n: u32, width: usize)
    requires
        is_ascii_chars(label_text(*old(buf))),
        width <= 10,
        label_text(*old(buf)).len() + 10 <= 50,
    ensures
        label_text(*final(buf)) == label_text(*old(buf)) + zero_padded(n as nat, width as nat),
        label_text(*final(buf)).len() <= label_text(*old(buf)).len() + 10,
        is_ascii_chars(label_text(*final(buf))),
{
    let ghost start = label_text(*buf);
    let len = decimal_len(n);
    proof {
        lemma_u32_decimal_len(n);
    }
    let fill: usize = if len < width { width - len } else { 0 };
    let mut k: usize = 0;
    while k < fill
        invariant
            k <= fill,
            fill + len <= 10,
            len == decimal_digits(n as nat).len(),
            start.len() + 10 <= 50,
            is_ascii_chars(label_text(*buf)),
            label_text(*buf) =~= start + Seq::new(k as nat, |_i: int| '0'),
        decreases fill - k,
    {
        push_ascii(buf, '0');
        k = k + 1;
    }
    push_decimal(buf, n);
    assert(label_text(*buf) =~= start + zero_padded(n as nat, width as nat));
}

/// The label reads "DD Mon YYYY": the day in at least two digits, a
/// space, the month's name, a space, and the year in at least four
/// characters, with a leading '-' exactly when it is negative.
pub proof fn lemma_date_label_fields(day: u32, month: u32, year: i32)
    ensures
        ({
            let t = date_label_text(day, month, year);
            let k = zero_padded(day as nat, 2).len() as int;
            let rest = t.skip(k + 5);
            &&& 2 <= k
            &&& forall|i: int| 0 <= i < k ==> is_digit(#[trigger] t[i])
            &&& digits_value(t.take(k)) == day
            &&& t[k] == ' '
            &&& t.subrange(k + 1, k + 4) == month_abbrev(month)
            &&& t[k + 4] == ' '
            &&& rest.len() >= 4
            &&& (rest[0] == '-') <==> year < 0
            &&& year < 0 ==> digits_value(rest.drop_first()) == -(year as int)
            &&& year >= 0 ==> digits_value(rest) == year
        }),
{
    let t = date_label_text(day, month, year);
    let f = zero_padded(day as nat, 2);
    let k = f.len() as int;
    lemma_zero_padded_read_back(day as nat, 2);
    lemma_signed_zero_padded_shape(year as int, 4);
    let g = signed_zero_padded(year as int, 4);
    assert(t == f + seq![' '] + month_abbrev(month) + seq![' '] + g);
    assert(t.take(k) =~= f);
    assert forall|i: int| 0 <= i < k implies is_digit(#[trigger] t[i]) by {
        assert(t[i] == f[i]);
    }
    assert(t.subrange(k + 1, k + 4) =~= month_abbrev(month));
    assert(t.skip(k + 5) =~= g);
    if year < 0 {
        lemma_zero_padded_read_back((-(year as int)) as nat, 3);
    } else {
        lemma_zero_padded_read_back(year as nat, 4);
    }
}

/// Appends an ASCII string that fits in the buffer.
fn push_short_ascii(buf: &mut heapless::String<50>, t: &str)
    requires
        is_ascii_chars(label_text(*old(buf))),
        is_ascii_chars(t@),
        label_text(*old(buf)).len() + t@.len() <= 50,
    ensures
        label_text(*final(buf)) == label_text(*old(buf)) + t@,
        is_ascii_chars(label_text(*final(buf))),
{
    proof {
        lemma_ascii_byte_len(label_text(*buf));
        lemma_ascii_byte_len(t@);
        lemma_ascii_concat(label_text(*buf), t@);
    }
    let r = label_buffer_push_str(buf, t);
    assert(r is Ok);
}

/// The label drawn for a calendar date: the day on two digits, the month
/// name and the year on four digits, separated by single spaces.
pub fn format_date(day: u32, month: u32, year: i32) -> (label: heapless::String<50>)
    ensures
        label_text(label) == date_label_text(day, month, year),
        label_text(label).len() <= 26,
{
    let mut buf = label_buffer_new();
    assert(is_ascii_chars(label_text(buf)));
    push_zero_padded(&mut buf, day, 2);
    push_ascii(&mut buf, ' ');
    let name = month_name(month);
    assert(is_ascii_chars(name@));
    push_short_ascii(&mut buf, name);
    push_ascii(&mut buf, ' ');
    if year < 0 {
        push_ascii(&mut buf, '-');
        let magnitude: u32 = (0 - (year as i64)) as u32;
        push_zero_padded(&mut buf, magnitude, 3);
    } else {
        push_zero_padded(&mut buf, year as u32, 4);
    }
    assert(label_text(buf) =~= date_label_text(day, month, year));
    buf
}

/// The label drawn for the UNIX timestamp `timestamp`: its calendar date
/// in UTC, as `format_date` writes it. There is none when the timestamp
/// falls outside the years that `chrono` represents.
pub fn date_label(timestamp: i64) -> (label: Option<heapless::String<50>>)
    ensures
        label is Some <==> first_epoch_day() <= day_of_timestamp(timestamp as int)
            <= last_epoch_day(),
        label matches Some(l) ==> {
            let (y, m, d) = date_of_day(day_of_timestamp(timestamp as int));
            &&& is_valid_date(y, m, d)
            &&& FIRST_YEAR <= y <= LAST_YEAR
            &&& epoch_day(y, m, d) == day_of_timestamp(timestamp as int)
            &&& label_text(l) == date_label_text(d as u32, m as u32, y as i32)
        },
{
    match utc_date_of_timestamp(timestamp) {
        Some((year, month, day)) => {
            proof {
                let t = day_of_timestamp(timestamp as int);
                assert(is_valid_date(year as int, month as int, day as int) && epoch_day(
                    year as int,
                    month as int,
                    day as int,
                ) == t);
                let (y, m, d) = date_of_day(t);
                lemma_epoch_day_injective(y, m, d, year as int, month as int, day as int);
            }
            let l = format_date(day, month, year);
            Some(l)
        },
        None => None,
    }
}

} // verus!
